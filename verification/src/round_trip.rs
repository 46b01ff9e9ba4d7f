//! Proof that the reader inverts the writer: decoding a canonically encoded
//! document yields exactly the events that were encoded.
//!
//! The lemmas walk the encoded text token by token. [`lemma_round_trip_doc`]
//! and [`lemma_round_trip_event`] are the two laws; the rest are the steps
//! they are assembled from.

use vstd::prelude::*;

use crate::codec::empty_raw;
use crate::codec::enc_args_field;
use crate::codec::enc_num_field;
use crate::codec::enc_ph;
use crate::codec::enc_str_field;
use crate::codec::enc_tid_opt;
use crate::codec::event_of_fields;
use crate::codec::key_args;
use crate::codec::key_cat;
use crate::codec::key_dur;
use crate::codec::key_id;
use crate::codec::key_name;
use crate::codec::key_ph;
use crate::codec::key_pid;
use crate::codec::key_tid;
use crate::codec::key_trace_events;
use crate::codec::key_ts;
use crate::codec::parse_code;
use crate::codec::parse_colon_args;
use crate::codec::parse_colon_num;
use crate::codec::parse_colon_string;
use crate::codec::parse_colon_tid;
use crate::codec::parse_doc;
use crate::codec::parse_entries;
use crate::codec::parse_event;
use crate::codec::parse_event_body;
use crate::codec::parse_events;
use crate::codec::parse_events_tail;
use crate::codec::RawFields;
use crate::codec::spec_decode_doc;
use crate::codec::spec_decode_event;
use crate::codec::spec_enc_doc;
use crate::codec::spec_enc_event;
use crate::codec::spec_enc_list;
use crate::codec::spec_enc_list_tail;
use crate::codec::tid_of;
use crate::json::char_to_digit;
use crate::json::dec_digits;
use crate::json::digit_run_len;
use crate::json::digit_to_char;
use crate::json::digits_val;
use crate::json::escape_char;
use crate::json::escape_seq;
use crate::json::is_digit_char;
use crate::json::is_ws_char;
use crate::json::parse_lit;
use crate::json::parse_num;
use crate::json::parse_string_body;
use crate::json::skip_ws;
use crate::trace_event::EventModel;

verus! {

// ---------------------------------------------------------------------------
// The characters of the fixed tokens
// ---------------------------------------------------------------------------

/// The views of all fixed token literals, spelled out character by character.
pub proof fn lemma_lits()
    ensures
        "{"@ == seq!['{'],
        "}"@ == seq!['}'],
        "["@ == seq!['['],
        "]"@ == seq![']'],
        ","@ == seq![','],
        ":"@ == seq![':'],
        ":\""@ == seq![':', '"'],
        "\""@ == seq!['"'],
        "null"@ == seq!['n', 'u', 'l', 'l'],
        key_ph() == seq!['"', 'p', 'h', '"'],
        key_name() == seq!['"', 'n', 'a', 'm', 'e', '"'],
        key_pid() == seq!['"', 'p', 'i', 'd', '"'],
        key_ts() == seq!['"', 't', 's', '"'],
        key_tid() == seq!['"', 't', 'i', 'd', '"'],
        key_dur() == seq!['"', 'd', 'u', 'r', '"'],
        key_cat() == seq!['"', 'c', 'a', 't', '"'],
        key_id() == seq!['"', 'i', 'd', '"'],
        key_args() == seq!['"', 'a', 'r', 'g', 's', '"'],
        key_trace_events() == seq![
            '"',
            't',
            'r',
            'a',
            'c',
            'e',
            'E',
            'v',
            'e',
            'n',
            't',
            's',
            '"',
        ],
{
    reveal_strlit("{");
    reveal_strlit("}");
    reveal_strlit("[");
    reveal_strlit("]");
    reveal_strlit(",");
    reveal_strlit(":");
    reveal_strlit(":\"");
    reveal_strlit("\"");
    reveal_strlit("null");
    reveal_strlit("\"ph\"");
    reveal_strlit("\"name\"");
    reveal_strlit("\"pid\"");
    reveal_strlit("\"ts\"");
    reveal_strlit("\"tid\"");
    reveal_strlit("\"dur\"");
    reveal_strlit("\"cat\"");
    reveal_strlit("\"id\"");
    reveal_strlit("\"args\"");
    reveal_strlit("\"traceEvents\"");
    assert("{"@ =~= seq!['{']);
    assert("}"@ =~= seq!['}']);
    assert("["@ =~= seq!['[']);
    assert("]"@ =~= seq![']']);
    assert(","@ =~= seq![',']);
    assert(":"@ =~= seq![':']);
    assert(":\""@ =~= seq![':', '"']);
    assert("\""@ =~= seq!['"']);
    assert("null"@ =~= seq!['n', 'u', 'l', 'l']);
    assert(key_ph() =~= seq!['"', 'p', 'h', '"']);
    assert(key_name() =~= seq!['"', 'n', 'a', 'm', 'e', '"']);
    assert(key_pid() =~= seq!['"', 'p', 'i', 'd', '"']);
    assert(key_ts() =~= seq!['"', 't', 's', '"']);
    assert(key_tid() =~= seq!['"', 't', 'i', 'd', '"']);
    assert(key_dur() =~= seq!['"', 'd', 'u', 'r', '"']);
    assert(key_cat() =~= seq!['"', 'c', 'a', 't', '"']);
    assert(key_id() =~= seq!['"', 'i', 'd', '"']);
    assert(key_args() =~= seq!['"', 'a', 'r', 'g', 's', '"']);
    assert(key_trace_events() =~= seq![
        '"',
        't',
        'r',
        'a',
        'c',
        'e',
        'E',
        'v',
        'e',
        'n',
        't',
        's',
        '"',
    ]);
}

// ---------------------------------------------------------------------------
// Token-level inversions
// ---------------------------------------------------------------------------

/// A literal token at the head of the input is consumed exactly.
#[verifier::rlimit(100)]
#[verifier::spinoff_prover]
pub proof fn lemma_parse_lit_inv(lit: Seq<char>, rest: Seq<char>)
    requires
        lit.len() > 0,
        !is_ws_char(lit[0]),
    ensures
        parse_lit(lit + rest, lit) == Some(rest),
{
    let s = lit + rest;
    assert(s[0] == lit[0]);
    assert(skip_ws(s) == s);
    assert(lit =~= s.subrange(0, lit.len() as int));
    assert(lit.is_prefix_of(s));
    assert(s.skip(lit.len() as int) =~= rest);
}

/// A literal token does not match when the first characters differ.
#[verifier::rlimit(100)]
#[verifier::spinoff_prover]
pub proof fn lemma_parse_lit_fail(lit: Seq<char>, s: Seq<char>)
    requires
        s.len() > 0,
        !is_ws_char(s[0]),
        lit.len() > 0,
        lit[0] != s[0],
    ensures
        parse_lit(s, lit) is None,
{
    assert(skip_ws(s) == s);
    if lit.is_prefix_of(s) {
        assert(lit =~= s.subrange(0, lit.len() as int));
        assert(lit[0] == s[0]);
    }
}

/// Reading a string body undoes the escaping.
#[verifier::rlimit(100)]
#[verifier::spinoff_prover]
pub proof fn lemma_strbody_inv(v: Seq<char>, rest: Seq<char>)
    ensures
        parse_string_body(escape_seq(v) + (seq!['"'] + rest)) == Some((v, rest)),
    decreases v.len(),
{
    if v.len() == 0 {
        let s = escape_seq(v) + (seq!['"'] + rest);
        assert(s =~= seq!['"'] + rest);
        assert(s[0] == '"');
        assert(s.drop_first() =~= rest);
        assert(Seq::<char>::empty() =~= v);
    } else {
        let c = v[0];
        let tail = escape_seq(v.drop_first()) + (seq!['"'] + rest);
        let s = escape_seq(v) + (seq!['"'] + rest);
        assert(s =~= escape_char(c) + tail);
        lemma_strbody_inv(v.drop_first(), rest);
        if c == '"' {
            assert(s =~= seq!['\\', '"'] + tail);
            assert(s[0] == '\\');
            assert(s[1] == '"');
            assert(s.len() >= 2);
            assert(s.skip(2) =~= tail);
            assert(seq![s[1]] + v.drop_first() =~= v);
        } else if c == '\\' {
            assert(s =~= seq!['\\', '\\'] + tail);
            assert(s[0] == '\\');
            assert(s[1] == '\\');
            assert(s.skip(2) =~= tail);
            assert(seq![s[1]] + v.drop_first() =~= v);
        } else {
            assert(s =~= seq![c] + tail);
            assert(s[0] == c);
            assert(s.drop_first() =~= tail);
            assert(seq![s[0]] + v.drop_first() =~= v);
        }
    }
}

// ---------------------------------------------------------------------------
// Number inversions
// ---------------------------------------------------------------------------

pub proof fn lemma_dec_digits_all(n: nat)
    ensures
        dec_digits(n).len() >= 1,
        forall|i: int| 0 <= i < dec_digits(n).len() ==> is_digit_char(dec_digits(n)[i]),
    decreases n,
{
    if n < 10 {
        assert(is_digit_char(digit_to_char(n)));
    } else {
        lemma_dec_digits_all(n / 10);
        assert(is_digit_char(digit_to_char(n % 10)));
        assert(forall|i: int|
            0 <= i < dec_digits(n).len() ==> is_digit_char(#[trigger] dec_digits(n)[i])) by {
            assert forall|i: int|
                0 <= i < dec_digits(n).len() implies is_digit_char(
                #[trigger] dec_digits(n)[i],
            ) by {
                if i < dec_digits(n / 10).len() {
                    assert(dec_digits(n)[i] == dec_digits(n / 10)[i]);
                } else {
                    assert(dec_digits(n)[i] == digit_to_char(n % 10));
                }
            }
        }
    }
}

pub proof fn lemma_digits_val_dec(n: nat)
    ensures
        digits_val(dec_digits(n)) == n,
    decreases n,
{
    if n < 10 {
        let ds = dec_digits(n);
        assert(ds == seq![digit_to_char(n)]);
        assert(ds.len() == 1);
        assert(ds.last() == digit_to_char(n));
        assert(ds.drop_last() =~= Seq::<char>::empty());
        assert(digits_val(Seq::<char>::empty()) == 0);
        assert(digits_val(ds) == char_to_digit(digit_to_char(n)));
        assert(char_to_digit(digit_to_char(n)) == n);
    } else {
        lemma_digits_val_dec(n / 10);
        let ds = dec_digits(n);
        assert(ds.drop_last() =~= dec_digits(n / 10));
        assert(ds.last() == digit_to_char(n % 10));
        assert(char_to_digit(digit_to_char(n % 10)) == n % 10);
        assert(digits_val(ds) == digits_val(dec_digits(n / 10)) * 10 + n % 10);
        assert((n / 10) * 10 + n % 10 == n);
    }
}

/// A run of digits followed by a non-digit splits exactly at the boundary.
pub proof fn lemma_digit_run_all(a: Seq<char>, rest: Seq<char>)
    requires
        forall|i: int| 0 <= i < a.len() ==> is_digit_char(a[i]),
        rest.len() == 0 || !is_digit_char(rest[0]),
    ensures
        digit_run_len(a + rest) == a.len(),
    decreases a.len(),
{
    let s = a + rest;
    if a.len() == 0 {
        assert(s =~= rest);
    } else {
        assert(s[0] == a[0]);
        assert(is_digit_char(s[0]));
        assert(s.drop_first() =~= a.drop_first() + rest);
        lemma_digit_run_all(a.drop_first(), rest);
    }
}

/// Reading a decimal number undoes its rendering.
#[verifier::rlimit(100)]
#[verifier::spinoff_prover]
pub proof fn lemma_parse_num_inv(n: u64, rest: Seq<char>)
    requires
        rest.len() == 0 || !is_digit_char(rest[0]),
    ensures
        parse_num(dec_digits(n as nat) + rest) == Some((n, rest)),
{
    let ds = dec_digits(n as nat);
    let s = ds + rest;
    lemma_dec_digits_all(n as nat);
    assert(s[0] == ds[0]);
    assert(is_digit_char(s[0]));
    assert(!is_ws_char(s[0]));
    assert(skip_ws(s) == s);
    lemma_digit_run_all(ds, rest);
    assert(digit_run_len(s) == ds.len());
    assert(s.take(ds.len() as int) =~= ds);
    lemma_digits_val_dec(n as nat);
    assert(digits_val(ds) == n as int);
    assert(s.skip(ds.len() as int) =~= rest);
}

// ---------------------------------------------------------------------------
// Field-level inversions
// ---------------------------------------------------------------------------

/// Reading the quoted phase code undoes its writing.
#[verifier::rlimit(100)]
#[verifier::spinoff_prover]
pub proof fn lemma_parse_code_inv(code: char, rest: Seq<char>)
    ensures
        parse_code(seq!['"', code, '"'] + rest) == Some((code, rest)),
{
    lemma_lits();
    let s = seq!['"', code, '"'] + rest;
    let x1 = seq![code, '"'] + rest;
    assert(s =~= seq!['"'] + x1);
    lemma_parse_lit_inv(seq!['"'], x1);
    assert(x1.len() >= 2);
    assert(x1[0] == code);
    assert(x1[1] == '"');
    assert(x1.skip(2) =~= rest);
}

/// A literal token does not match when it differs from the input at some
/// position within its length.
#[verifier::rlimit(100)]
#[verifier::spinoff_prover]
pub proof fn lemma_parse_lit_fail_at(lit: Seq<char>, s: Seq<char>, k: int)
    requires
        s.len() > 0,
        !is_ws_char(s[0]),
        0 <= k < lit.len(),
        k >= s.len() || lit[k] != s[k],
    ensures
        parse_lit(s, lit) is None,
{
    assert(skip_ws(s) == s);
    if lit.is_prefix_of(s) {
        assert(lit =~= s.subrange(0, lit.len() as int));
        assert(lit[k] == s[k]);
    }
}

/// Reading a colon and a quoted string value undoes its writing.
#[verifier::rlimit(100)]
#[verifier::spinoff_prover]
pub proof fn lemma_colon_string_inv(v: Seq<char>, rest: Seq<char>)
    ensures
        parse_colon_string(seq![':'] + (seq!['"'] + (escape_seq(v) + (seq!['"'] + rest)))) == Some(
            (v, rest),
        ),
{
    lemma_lits();
    let x1 = seq!['"'] + (escape_seq(v) + (seq!['"'] + rest));
    lemma_parse_lit_inv(seq![':'], x1);
    let x2 = escape_seq(v) + (seq!['"'] + rest);
    lemma_parse_lit_inv(seq!['"'], x2);
    lemma_strbody_inv(v, rest);
}

/// Reading a colon and a number value undoes its writing.
#[verifier::rlimit(100)]
#[verifier::spinoff_prover]
pub proof fn lemma_colon_num_inv(n: u64, rest: Seq<char>)
    requires
        rest.len() == 0 || !is_digit_char(rest[0]),
    ensures
        parse_colon_num(seq![':'] + (dec_digits(n as nat) + rest)) == Some((n, rest)),
{
    lemma_lits();
    let x1 = dec_digits(n as nat) + rest;
    lemma_parse_lit_inv(seq![':'], x1);
    lemma_parse_num_inv(n, rest);
}

/// Reading a colon and a numeric thread identifier undoes its writing: a
/// digit run is never mistaken for the `null` token.
#[verifier::rlimit(100)]
#[verifier::spinoff_prover]
pub proof fn lemma_colon_tid_inv(n: u64, rest: Seq<char>)
    requires
        rest.len() == 0 || !is_digit_char(rest[0]),
    ensures
        parse_colon_tid(seq![':'] + (dec_digits(n as nat) + rest)) == Some((Some(n), rest)),
{
    lemma_lits();
    let x1 = dec_digits(n as nat) + rest;
    lemma_parse_lit_inv(seq![':'], x1);
    lemma_dec_digits_all(n as nat);
    assert(x1[0] == dec_digits(n as nat)[0]);
    assert(is_digit_char(x1[0]));
    assert(x1[0] != 'n');
    lemma_parse_lit_fail(seq!['n', 'u', 'l', 'l'], x1);
    lemma_parse_num_inv(n, rest);
}

/// Reading a colon and the one-entry `args` object undoes its writing.
#[verifier::rlimit(100)]
#[verifier::spinoff_prover]
pub proof fn lemma_colon_args_inv(v: Seq<char>, rest: Seq<char>)
    ensures
        parse_colon_args(
            seq![':'] + (seq!['{'] + (key_name() + (seq![':'] + (seq!['"'] + (escape_seq(v) + (
            seq!['"'] + (seq!['}'] + rest))))))),
        ) == Some((v, rest)),
{
    lemma_lits();
    let x1 = seq!['{'] + (key_name() + (seq![':'] + (seq!['"'] + (escape_seq(v) + (seq!['"'] + (
    seq!['}'] + rest))))));
    lemma_parse_lit_inv(seq![':'], x1);
    let x2 = key_name() + (seq![':'] + (seq!['"'] + (escape_seq(v) + (seq!['"'] + (seq!['}']
        + rest)))));
    lemma_parse_lit_inv(seq!['{'], x2);
    let x3 = seq![':'] + (seq!['"'] + (escape_seq(v) + (seq!['"'] + (seq!['}'] + rest))));
    lemma_parse_lit_inv(key_name(), x3);
    let x4 = seq!['"'] + (escape_seq(v) + (seq!['"'] + (seq!['}'] + rest)));
    lemma_parse_lit_inv(seq![':'], x4);
    let x5 = escape_seq(v) + (seq!['"'] + (seq!['}'] + rest));
    lemma_parse_lit_inv(seq!['"'], x5);
    lemma_strbody_inv(v, seq!['}'] + rest);
    lemma_parse_lit_inv(seq!['}'], rest);
}

// ---------------------------------------------------------------------------
// Entry-level inversions: one collected entry each
// ---------------------------------------------------------------------------

/// Collecting a canonical `name` entry records its value.
#[verifier::rlimit(100)]
#[verifier::spinoff_prover]
pub proof fn lemma_entry_name(v: Seq<char>, rest: Seq<char>, acc: RawFields)
    requires
        acc.name is None,
    ensures
        parse_entries(enc_str_field(key_name(), v) + rest, acc) == parse_entries(
            rest,
            (RawFields { name: Some(v), ..acc }),
        ),
{
    lemma_lits();
    let s = enc_str_field(key_name(), v) + rest;
    let x1 = key_name() + (seq![':'] + (seq!['"'] + (escape_seq(v) + (seq!['"'] + rest))));
    assert(s =~= seq![','] + x1);
    assert(s[0] == ',');
    lemma_parse_lit_fail(seq!['}'], s);
    lemma_parse_lit_inv(seq![','], x1);
    let x2 = seq![':'] + (seq!['"'] + (escape_seq(v) + (seq!['"'] + rest)));
    lemma_parse_lit_inv(key_name(), x2);
    lemma_colon_string_inv(v, rest);
    assert(rest.len() < s.len());
}

/// Collecting a canonical `pid` entry records its value.
#[verifier::rlimit(100)]
#[verifier::spinoff_prover]
pub proof fn lemma_entry_pid(n: u64, rest: Seq<char>, acc: RawFields)
    requires
        acc.pid is None,
        rest.len() > 0,
        !is_digit_char(rest[0]),
    ensures
        parse_entries(enc_num_field(key_pid(), n) + rest, acc) == parse_entries(
            rest,
            (RawFields { pid: Some(n), ..acc }),
        ),
{
    lemma_lits();
    let s = enc_num_field(key_pid(), n) + rest;
    let x1 = key_pid() + (seq![':'] + (dec_digits(n as nat) + rest));
    assert(s =~= seq![','] + x1);
    assert(s[0] == ',');
    lemma_parse_lit_fail(seq!['}'], s);
    lemma_parse_lit_inv(seq![','], x1);
    lemma_parse_lit_fail_at(key_name(), x1, 1);
    let x2 = seq![':'] + (dec_digits(n as nat) + rest);
    lemma_parse_lit_inv(key_pid(), x2);
    lemma_colon_num_inv(n, rest);
    assert(rest.len() < s.len());
}

/// Collecting a canonical `ts` entry records its value.
#[verifier::rlimit(100)]
#[verifier::spinoff_prover]
pub proof fn lemma_entry_ts(n: u64, rest: Seq<char>, acc: RawFields)
    requires
        acc.ts is None,
        rest.len() > 0,
        !is_digit_char(rest[0]),
    ensures
        parse_entries(enc_num_field(key_ts(), n) + rest, acc) == parse_entries(
            rest,
            (RawFields { ts: Some(n), ..acc }),
        ),
{
    lemma_lits();
    let s = enc_num_field(key_ts(), n) + rest;
    let x1 = key_ts() + (seq![':'] + (dec_digits(n as nat) + rest));
    assert(s =~= seq![','] + x1);
    assert(s[0] == ',');
    lemma_parse_lit_fail(seq!['}'], s);
    lemma_parse_lit_inv(seq![','], x1);
    lemma_parse_lit_fail_at(key_name(), x1, 1);
    lemma_parse_lit_fail_at(key_pid(), x1, 1);
    let x2 = seq![':'] + (dec_digits(n as nat) + rest);
    lemma_parse_lit_inv(key_ts(), x2);
    lemma_colon_num_inv(n, rest);
    assert(rest.len() < s.len());
}

/// Collecting a canonical `dur` entry records its value.
#[verifier::rlimit(100)]
#[verifier::spinoff_prover]
pub proof fn lemma_entry_dur(n: u64, rest: Seq<char>, acc: RawFields)
    requires
        acc.dur is None,
        rest.len() > 0,
        !is_digit_char(rest[0]),
    ensures
        parse_entries(enc_num_field(key_dur(), n) + rest, acc) == parse_entries(
            rest,
            (RawFields { dur: Some(n), ..acc }),
        ),
{
    lemma_lits();
    let s = enc_num_field(key_dur(), n) + rest;
    let x1 = key_dur() + (seq![':'] + (dec_digits(n as nat) + rest));
    assert(s =~= seq![','] + x1);
    assert(s[0] == ',');
    lemma_parse_lit_fail(seq!['}'], s);
    lemma_parse_lit_inv(seq![','], x1);
    lemma_parse_lit_fail_at(key_name(), x1, 1);
    lemma_parse_lit_fail_at(key_pid(), x1, 1);
    lemma_parse_lit_fail_at(key_ts(), x1, 1);
    let x2 = seq![':'] + (dec_digits(n as nat) + rest);
    lemma_parse_lit_inv(key_dur(), x2);
    lemma_colon_num_inv(n, rest);
    assert(rest.len() < s.len());
}

/// Collecting a canonical numeric `tid` entry records its value.
#[verifier::rlimit(100)]
#[verifier::spinoff_prover]
pub proof fn lemma_entry_tid(n: u64, rest: Seq<char>, acc: RawFields)
    requires
        acc.tid is None,
        rest.len() > 0,
        !is_digit_char(rest[0]),
    ensures
        parse_entries(enc_num_field(key_tid(), n) + rest, acc) == parse_entries(
            rest,
            (RawFields { tid: Some(Some(n)), ..acc }),
        ),
{
    lemma_lits();
    let s = enc_num_field(key_tid(), n) + rest;
    let x1 = key_tid() + (seq![':'] + (dec_digits(n as nat) + rest));
    assert(s =~= seq![','] + x1);
    assert(s[0] == ',');
    lemma_parse_lit_fail(seq!['}'], s);
    lemma_parse_lit_inv(seq![','], x1);
    lemma_parse_lit_fail_at(key_name(), x1, 1);
    lemma_parse_lit_fail_at(key_pid(), x1, 1);
    lemma_parse_lit_fail_at(key_ts(), x1, 2);
    lemma_parse_lit_fail_at(key_dur(), x1, 1);
    let x2 = seq![':'] + (dec_digits(n as nat) + rest);
    lemma_parse_lit_inv(key_tid(), x2);
    lemma_colon_tid_inv(n, rest);
    assert(rest.len() < s.len());
}

/// Collecting a canonical `cat` entry records its value.
#[verifier::rlimit(100)]
#[verifier::spinoff_prover]
pub proof fn lemma_entry_cat(v: Seq<char>, rest: Seq<char>, acc: RawFields)
    requires
        acc.cat is None,
    ensures
        parse_entries(enc_str_field(key_cat(), v) + rest, acc) == parse_entries(
            rest,
            (RawFields { cat: Some(v), ..acc }),
        ),
{
    lemma_lits();
    let s = enc_str_field(key_cat(), v) + rest;
    let x1 = key_cat() + (seq![':'] + (seq!['"'] + (escape_seq(v) + (seq!['"'] + rest))));
    assert(s =~= seq![','] + x1);
    assert(s[0] == ',');
    lemma_parse_lit_fail(seq!['}'], s);
    lemma_parse_lit_inv(seq![','], x1);
    lemma_parse_lit_fail_at(key_name(), x1, 1);
    lemma_parse_lit_fail_at(key_pid(), x1, 1);
    lemma_parse_lit_fail_at(key_ts(), x1, 1);
    lemma_parse_lit_fail_at(key_dur(), x1, 1);
    lemma_parse_lit_fail_at(key_tid(), x1, 1);
    let x2 = seq![':'] + (seq!['"'] + (escape_seq(v) + (seq!['"'] + rest)));
    lemma_parse_lit_inv(key_cat(), x2);
    lemma_colon_string_inv(v, rest);
    assert(rest.len() < s.len());
}

/// Collecting a canonical `id` entry records its value.
#[verifier::rlimit(100)]
#[verifier::spinoff_prover]
pub proof fn lemma_entry_id(n: u64, rest: Seq<char>, acc: RawFields)
    requires
        acc.id is None,
        rest.len() > 0,
        !is_digit_char(rest[0]),
    ensures
        parse_entries(enc_num_field(key_id(), n) + rest, acc) == parse_entries(
            rest,
            (RawFields { id: Some(n), ..acc }),
        ),
{
    lemma_lits();
    let s = enc_num_field(key_id(), n) + rest;
    let x1 = key_id() + (seq![':'] + (dec_digits(n as nat) + rest));
    assert(s =~= seq![','] + x1);
    assert(s[0] == ',');
    lemma_parse_lit_fail(seq!['}'], s);
    lemma_parse_lit_inv(seq![','], x1);
    lemma_parse_lit_fail_at(key_name(), x1, 1);
    lemma_parse_lit_fail_at(key_pid(), x1, 1);
    lemma_parse_lit_fail_at(key_ts(), x1, 1);
    lemma_parse_lit_fail_at(key_dur(), x1, 1);
    lemma_parse_lit_fail_at(key_tid(), x1, 1);
    lemma_parse_lit_fail_at(key_cat(), x1, 1);
    let x2 = seq![':'] + (dec_digits(n as nat) + rest);
    lemma_parse_lit_inv(key_id(), x2);
    lemma_colon_num_inv(n, rest);
    assert(rest.len() < s.len());
}

/// Collecting a canonical `args` entry records its value.
#[verifier::rlimit(100)]
#[verifier::spinoff_prover]
pub proof fn lemma_entry_args(v: Seq<char>, rest: Seq<char>, acc: RawFields)
    requires
        acc.args is None,
    ensures
        parse_entries(enc_args_field(v) + rest, acc) == parse_entries(
            rest,
            (RawFields { args: Some(v), ..acc }),
        ),
{
    lemma_lits();
    let s = enc_args_field(v) + rest;
    let x1 = key_args() + (seq![':'] + (seq!['{'] + (key_name() + (seq![':'] + (seq!['"'] + (
    escape_seq(v) + (seq!['"'] + (seq!['}'] + rest))))))));
    assert(s =~= seq![','] + x1);
    assert(s[0] == ',');
    lemma_parse_lit_fail(seq!['}'], s);
    lemma_parse_lit_inv(seq![','], x1);
    lemma_parse_lit_fail_at(key_name(), x1, 1);
    lemma_parse_lit_fail_at(key_pid(), x1, 1);
    lemma_parse_lit_fail_at(key_ts(), x1, 1);
    lemma_parse_lit_fail_at(key_dur(), x1, 1);
    lemma_parse_lit_fail_at(key_tid(), x1, 1);
    lemma_parse_lit_fail_at(key_cat(), x1, 1);
    lemma_parse_lit_fail_at(key_id(), x1, 1);
    let x2 = seq![':'] + (seq!['{'] + (key_name() + (seq![':'] + (seq!['"'] + (escape_seq(v) + (
    seq!['"'] + (seq!['}'] + rest)))))));
    lemma_parse_lit_inv(key_args(), x2);
    lemma_colon_args_inv(v, rest);
    assert(rest.len() < s.len());
}

/// The closing brace ends the entries with the fields collected so far.
#[verifier::rlimit(100)]
#[verifier::spinoff_prover]
pub proof fn lemma_entries_close(acc: RawFields, rest: Seq<char>)
    ensures
        parse_entries(seq!['}'] + rest, acc) == Some((acc, rest)),
{
    lemma_lits();
    lemma_parse_lit_inv(seq!['}'], rest);
}

// ---------------------------------------------------------------------------
// Event-level inversions
// ---------------------------------------------------------------------------

/// Reading the opening of an event object reaches the per-phase dispatch.
#[verifier::rlimit(100)]
#[verifier::spinoff_prover]
pub proof fn lemma_parse_ph_inv(code: char, body: Seq<char>)
    ensures
        parse_event(enc_ph(code) + body) == parse_event_body(code, body),
{
    lemma_lits();
    let s = enc_ph(code) + body;
    let x1 = key_ph() + (seq![':'] + (seq!['"', code, '"'] + body));
    assert(s =~= seq!['{'] + x1);
    lemma_parse_lit_inv(seq!['{'], x1);
    let x2 = seq![':'] + (seq!['"', code, '"'] + body);
    lemma_parse_lit_inv(key_ph(), x2);
    let x3 = seq!['"', code, '"'] + body;
    lemma_parse_lit_inv(seq![':'], x3);
    lemma_parse_code_inv(code, body);
}

/// Collecting the canonical entries of a duration-begin event.
#[verifier::rlimit(100)]
#[verifier::spinoff_prover]
pub proof fn lemma_b_entries(name: Seq<char>, pid: u32, ts: u64, tid: Option<u64>, rest: Seq<char>)
    ensures
        parse_entries(
            enc_str_field(key_name(), name) + enc_num_field(key_pid(), pid as u64) + enc_num_field(
                key_ts(),
                ts,
            ) + enc_tid_opt(tid) + "}"@ + rest,
            empty_raw(),
        ) == Some(
            (
                (RawFields {
                    name: Some(name),
                    pid: Some(pid as u64),
                    ts: Some(ts),
                    dur: None,
                    tid: (match tid {
                        None => None,
                        Some(t) => Some(Some(t)),
                    }),
                    cat: None,
                    id: None,
                    args: None,
                }),
                rest,
            ),
        ),
{
    lemma_lits();
    let s = enc_str_field(key_name(), name) + enc_num_field(key_pid(), pid as u64) + enc_num_field(
        key_ts(),
        ts,
    ) + enc_tid_opt(tid) + "}"@ + rest;
    let x3 = enc_tid_opt(tid) + (seq!['}'] + rest);
    let x2 = enc_num_field(key_ts(), ts) + x3;
    let x1 = enc_num_field(key_pid(), pid as u64) + x2;
    assert(s =~= enc_str_field(key_name(), name) + x1);
    let acc1 = RawFields {
        name: Some(name),
        pid: None,
        ts: None,
        dur: None,
        tid: None,
        cat: None,
        id: None,
        args: None,
    };
    lemma_entry_name(name, x1, empty_raw());
    assert(x2[0] == ',');
    assert(!is_digit_char(x2[0]));
    let acc2 = RawFields { pid: Some(pid as u64), ..acc1 };
    lemma_entry_pid(pid as u64, x2, acc1);
    match tid {
        None => {
            assert(x3 =~= seq!['}'] + rest);
            assert(x3[0] == '}');
        },
        Some(t) => {
            assert(x3[0] == ',');
        },
    }
    assert(!is_digit_char(x3[0]));
    let acc3 = RawFields { ts: Some(ts), ..acc2 };
    lemma_entry_ts(ts, x3, acc2);
    match tid {
        None => {
            assert(x3 == seq!['}'] + rest);
            lemma_entries_close(acc3, rest);
        },
        Some(t) => {
            let x4 = seq!['}'] + rest;
            assert(x3 == enc_num_field(key_tid(), t) + x4);
            assert(x4[0] == '}');
            lemma_entry_tid(t, x4, acc3);
            lemma_entries_close((RawFields { tid: Some(Some(t)), ..acc3 }), rest);
        },
    }
}

/// Collecting the canonical entries of a duration-end event.
#[verifier::rlimit(100)]
#[verifier::spinoff_prover]
pub proof fn lemma_e_entries(pid: u32, ts: u64, tid: Option<u64>, rest: Seq<char>)
    ensures
        parse_entries(
            enc_num_field(key_pid(), pid as u64) + enc_num_field(key_ts(), ts) + enc_tid_opt(tid)
                + "}"@ + rest,
            empty_raw(),
        ) == Some(
            (
                (RawFields {
                    name: None,
                    pid: Some(pid as u64),
                    ts: Some(ts),
                    dur: None,
                    tid: (match tid {
                        None => None,
                        Some(t) => Some(Some(t)),
                    }),
                    cat: None,
                    id: None,
                    args: None,
                }),
                rest,
            ),
        ),
{
    lemma_lits();
    let s = enc_num_field(key_pid(), pid as u64) + enc_num_field(key_ts(), ts) + enc_tid_opt(tid)
        + "}"@ + rest;
    let x2 = enc_tid_opt(tid) + (seq!['}'] + rest);
    let x1 = enc_num_field(key_ts(), ts) + x2;
    assert(s =~= enc_num_field(key_pid(), pid as u64) + x1);
    assert(x1[0] == ',');
    assert(!is_digit_char(x1[0]));
    let acc1 = RawFields {
        name: None,
        pid: Some(pid as u64),
        ts: None,
        dur: None,
        tid: None,
        cat: None,
        id: None,
        args: None,
    };
    lemma_entry_pid(pid as u64, x1, empty_raw());
    match tid {
        None => {
            assert(x2 =~= seq!['}'] + rest);
            assert(x2[0] == '}');
        },
        Some(t) => {
            assert(x2[0] == ',');
        },
    }
    assert(!is_digit_char(x2[0]));
    let acc2 = RawFields { ts: Some(ts), ..acc1 };
    lemma_entry_ts(ts, x2, acc1);
    match tid {
        None => {
            assert(x2 == seq!['}'] + rest);
            lemma_entries_close(acc2, rest);
        },
        Some(t) => {
            let x3 = seq!['}'] + rest;
            assert(x2 == enc_num_field(key_tid(), t) + x3);
            assert(x3[0] == '}');
            lemma_entry_tid(t, x3, acc2);
            lemma_entries_close((RawFields { tid: Some(Some(t)), ..acc2 }), rest);
        },
    }
}

/// Collecting the canonical entries of a complete event.
#[verifier::rlimit(100)]
#[verifier::spinoff_prover]
pub proof fn lemma_x_entries(
    name: Seq<char>,
    pid: u32,
    ts: u64,
    dur: u64,
    tid: Option<u64>,
    rest: Seq<char>,
)
    ensures
        parse_entries(
            enc_str_field(key_name(), name) + enc_num_field(key_pid(), pid as u64) + enc_num_field(
                key_ts(),
                ts,
            ) + enc_num_field(key_dur(), dur) + enc_tid_opt(tid) + "}"@ + rest,
            empty_raw(),
        ) == Some(
            (
                (RawFields {
                    name: Some(name),
                    pid: Some(pid as u64),
                    ts: Some(ts),
                    dur: Some(dur),
                    tid: (match tid {
                        None => None,
                        Some(t) => Some(Some(t)),
                    }),
                    cat: None,
                    id: None,
                    args: None,
                }),
                rest,
            ),
        ),
{
    lemma_lits();
    let s = enc_str_field(key_name(), name) + enc_num_field(key_pid(), pid as u64) + enc_num_field(
        key_ts(),
        ts,
    ) + enc_num_field(key_dur(), dur) + enc_tid_opt(tid) + "}"@ + rest;
    let x4 = enc_tid_opt(tid) + (seq!['}'] + rest);
    let x3 = enc_num_field(key_dur(), dur) + x4;
    let x2 = enc_num_field(key_ts(), ts) + x3;
    let x1 = enc_num_field(key_pid(), pid as u64) + x2;
    assert(s =~= enc_str_field(key_name(), name) + x1);
    let acc1 = RawFields {
        name: Some(name),
        pid: None,
        ts: None,
        dur: None,
        tid: None,
        cat: None,
        id: None,
        args: None,
    };
    lemma_entry_name(name, x1, empty_raw());
    assert(x2[0] == ',');
    assert(!is_digit_char(x2[0]));
    let acc2 = RawFields { pid: Some(pid as u64), ..acc1 };
    lemma_entry_pid(pid as u64, x2, acc1);
    assert(x3[0] == ',');
    assert(!is_digit_char(x3[0]));
    let acc3 = RawFields { ts: Some(ts), ..acc2 };
    lemma_entry_ts(ts, x3, acc2);
    match tid {
        None => {
            assert(x4 =~= seq!['}'] + rest);
            assert(x4[0] == '}');
        },
        Some(t) => {
            assert(x4[0] == ',');
        },
    }
    assert(!is_digit_char(x4[0]));
    let acc4 = RawFields { dur: Some(dur), ..acc3 };
    lemma_entry_dur(dur, x4, acc3);
    match tid {
        None => {
            assert(x4 == seq!['}'] + rest);
            lemma_entries_close(acc4, rest);
        },
        Some(t) => {
            let x5 = seq!['}'] + rest;
            assert(x4 == enc_num_field(key_tid(), t) + x5);
            assert(x5[0] == '}');
            lemma_entry_tid(t, x5, acc4);
            lemma_entries_close((RawFields { tid: Some(Some(t)), ..acc4 }), rest);
        },
    }
}

/// Collecting the canonical entries of a metadata event.
#[verifier::rlimit(100)]
#[verifier::spinoff_prover]
pub proof fn lemma_m_entries(
    name: Seq<char>,
    pid: u32,
    args: Seq<char>,
    tid: Option<u64>,
    rest: Seq<char>,
)
    ensures
        parse_entries(
            enc_str_field(key_name(), name) + enc_num_field(key_pid(), pid as u64)
                + enc_args_field(args) + enc_tid_opt(tid) + "}"@ + rest,
            empty_raw(),
        ) == Some(
            (
                (RawFields {
                    name: Some(name),
                    pid: Some(pid as u64),
                    ts: None,
                    dur: None,
                    tid: (match tid {
                        None => None,
                        Some(t) => Some(Some(t)),
                    }),
                    cat: None,
                    id: None,
                    args: Some(args),
                }),
                rest,
            ),
        ),
{
    lemma_lits();
    let s = enc_str_field(key_name(), name) + enc_num_field(key_pid(), pid as u64)
        + enc_args_field(args) + enc_tid_opt(tid) + "}"@ + rest;
    let x3 = enc_tid_opt(tid) + (seq!['}'] + rest);
    let x2 = enc_args_field(args) + x3;
    let x1 = enc_num_field(key_pid(), pid as u64) + x2;
    assert(s =~= enc_str_field(key_name(), name) + x1);
    let acc1 = RawFields {
        name: Some(name),
        pid: None,
        ts: None,
        dur: None,
        tid: None,
        cat: None,
        id: None,
        args: None,
    };
    lemma_entry_name(name, x1, empty_raw());
    assert(x2[0] == ',');
    assert(!is_digit_char(x2[0]));
    let acc2 = RawFields { pid: Some(pid as u64), ..acc1 };
    lemma_entry_pid(pid as u64, x2, acc1);
    let acc3 = RawFields { args: Some(args), ..acc2 };
    lemma_entry_args(args, x3, acc2);
    match tid {
        None => {
            assert(x3 =~= seq!['}'] + rest);
            lemma_entries_close(acc3, rest);
        },
        Some(t) => {
            let x4 = seq!['}'] + rest;
            assert(x3 == enc_num_field(key_tid(), t) + x4);
            assert(x4[0] == '}');
            lemma_entry_tid(t, x4, acc3);
            lemma_entries_close((RawFields { tid: Some(Some(t)), ..acc3 }), rest);
        },
    }
}

/// Collecting the canonical entries of a flow event.
#[verifier::rlimit(100)]
#[verifier::spinoff_prover]
pub proof fn lemma_flow_entries(
    name: Seq<char>,
    pid: u32,
    tid: u64,
    ts: u64,
    cat: Seq<char>,
    id: u64,
    rest: Seq<char>,
)
    ensures
        parse_entries(
            enc_str_field(key_name(), name) + enc_num_field(key_pid(), pid as u64) + enc_num_field(
                key_tid(),
                tid,
            ) + enc_num_field(key_ts(), ts) + enc_str_field(key_cat(), cat) + enc_num_field(
                key_id(),
                id,
            ) + "}"@ + rest,
            empty_raw(),
        ) == Some(
            (
                (RawFields {
                    name: Some(name),
                    pid: Some(pid as u64),
                    ts: Some(ts),
                    dur: None,
                    tid: Some(Some(tid)),
                    cat: Some(cat),
                    id: Some(id),
                    args: None,
                }),
                rest,
            ),
        ),
{
    lemma_lits();
    let s = enc_str_field(key_name(), name) + enc_num_field(key_pid(), pid as u64) + enc_num_field(
        key_tid(),
        tid,
    ) + enc_num_field(key_ts(), ts) + enc_str_field(key_cat(), cat) + enc_num_field(key_id(), id)
        + "}"@ + rest;
    let x5 = enc_num_field(key_id(), id) + (seq!['}'] + rest);
    let x4 = enc_str_field(key_cat(), cat) + x5;
    let x3 = enc_num_field(key_ts(), ts) + x4;
    let x2 = enc_num_field(key_tid(), tid) + x3;
    let x1 = enc_num_field(key_pid(), pid as u64) + x2;
    assert(s =~= enc_str_field(key_name(), name) + x1);
    let acc1 = RawFields {
        name: Some(name),
        pid: None,
        ts: None,
        dur: None,
        tid: None,
        cat: None,
        id: None,
        args: None,
    };
    lemma_entry_name(name, x1, empty_raw());
    assert(x2[0] == ',');
    assert(!is_digit_char(x2[0]));
    let acc2 = RawFields { pid: Some(pid as u64), ..acc1 };
    lemma_entry_pid(pid as u64, x2, acc1);
    assert(x3[0] == ',');
    assert(!is_digit_char(x3[0]));
    let acc3 = RawFields { tid: Some(Some(tid)), ..acc2 };
    lemma_entry_tid(tid, x3, acc2);
    assert(x4[0] == ',');
    assert(!is_digit_char(x4[0]));
    let acc4 = RawFields { ts: Some(ts), ..acc3 };
    lemma_entry_ts(ts, x4, acc3);
    let acc5 = RawFields { cat: Some(cat), ..acc4 };
    lemma_entry_cat(cat, x5, acc4);
    let x6 = seq!['}'] + rest;
    assert(x5 == enc_num_field(key_id(), id) + x6);
    assert(x6[0] == '}');
    assert(!is_digit_char(x6[0]));
    let acc6 = RawFields { id: Some(id), ..acc5 };
    lemma_entry_id(id, x6, acc5);
    lemma_entries_close(acc6, rest);
}

#[verifier::rlimit(100)]
#[verifier::spinoff_prover]
proof fn lemma_event_case_b(name: Seq<char>, pid: u32, ts: u64, tid: Option<u64>, rest: Seq<char>)
    ensures
        parse_event(spec_enc_event(EventModel::B { name, pid, ts, tid }) + rest) == Some(
            (EventModel::B { name, pid, ts, tid }, rest),
        ),
{
    let e = EventModel::B { name, pid, ts, tid };
    let body = enc_str_field(key_name(), name) + enc_num_field(key_pid(), pid as u64)
        + enc_num_field(key_ts(), ts) + enc_tid_opt(tid) + "}"@ + rest;
    assert(spec_enc_event(e) + rest =~= enc_ph('B') + body);
    lemma_parse_ph_inv('B', body);
    lemma_b_entries(name, pid, ts, tid, rest);
    let fraw = RawFields {
        name: Some(name),
        pid: Some(pid as u64),
        ts: Some(ts),
        dur: None,
        tid: (match tid {
            None => None,
            Some(t) => Some(Some(t)),
        }),
        cat: None,
        id: None,
        args: None,
    };
    assert((pid as u64) as u32 == pid);
    assert(tid_of(fraw.tid) == tid);
    assert(event_of_fields('B', fraw) == Some(e));
}

#[verifier::rlimit(100)]
#[verifier::spinoff_prover]
proof fn lemma_event_case_e(pid: u32, ts: u64, tid: Option<u64>, rest: Seq<char>)
    ensures
        parse_event(spec_enc_event(EventModel::E { pid, ts, tid }) + rest) == Some(
            (EventModel::E { pid, ts, tid }, rest),
        ),
{
    let e = EventModel::E { pid, ts, tid };
    let body = enc_num_field(key_pid(), pid as u64) + enc_num_field(key_ts(), ts) + enc_tid_opt(
        tid,
    ) + "}"@ + rest;
    assert(spec_enc_event(e) + rest =~= enc_ph('E') + body);
    lemma_parse_ph_inv('E', body);
    lemma_e_entries(pid, ts, tid, rest);
    let fraw = RawFields {
        name: None,
        pid: Some(pid as u64),
        ts: Some(ts),
        dur: None,
        tid: (match tid {
            None => None,
            Some(t) => Some(Some(t)),
        }),
        cat: None,
        id: None,
        args: None,
    };
    assert((pid as u64) as u32 == pid);
    assert(tid_of(fraw.tid) == tid);
    assert(event_of_fields('E', fraw) == Some(e));
}

#[verifier::rlimit(100)]
#[verifier::spinoff_prover]
proof fn lemma_event_case_x(
    name: Seq<char>,
    pid: u32,
    ts: u64,
    dur: u64,
    tid: Option<u64>,
    rest: Seq<char>,
)
    ensures
        parse_event(spec_enc_event(EventModel::X { name, pid, ts, dur, tid }) + rest) == Some(
            (EventModel::X { name, pid, ts, dur, tid }, rest),
        ),
{
    let e = EventModel::X { name, pid, ts, dur, tid };
    let body = enc_str_field(key_name(), name) + enc_num_field(key_pid(), pid as u64)
        + enc_num_field(key_ts(), ts) + enc_num_field(key_dur(), dur) + enc_tid_opt(tid) + "}"@
        + rest;
    assert(spec_enc_event(e) + rest =~= enc_ph('X') + body);
    lemma_parse_ph_inv('X', body);
    lemma_x_entries(name, pid, ts, dur, tid, rest);
    let fraw = RawFields {
        name: Some(name),
        pid: Some(pid as u64),
        ts: Some(ts),
        dur: Some(dur),
        tid: (match tid {
            None => None,
            Some(t) => Some(Some(t)),
        }),
        cat: None,
        id: None,
        args: None,
    };
    assert((pid as u64) as u32 == pid);
    assert(tid_of(fraw.tid) == tid);
    assert(event_of_fields('X', fraw) == Some(e));
}

#[verifier::rlimit(100)]
#[verifier::spinoff_prover]
proof fn lemma_event_case_m(
    name: Seq<char>,
    pid: u32,
    args: Seq<char>,
    tid: Option<u64>,
    rest: Seq<char>,
)
    ensures
        parse_event(spec_enc_event(EventModel::M { name, pid, args, tid }) + rest) == Some(
            (EventModel::M { name, pid, args, tid }, rest),
        ),
{
    let e = EventModel::M { name, pid, args, tid };
    let body = enc_str_field(key_name(), name) + enc_num_field(key_pid(), pid as u64)
        + enc_args_field(args) + enc_tid_opt(tid) + "}"@ + rest;
    assert(spec_enc_event(e) + rest =~= enc_ph('M') + body);
    lemma_parse_ph_inv('M', body);
    lemma_m_entries(name, pid, args, tid, rest);
    let fraw = RawFields {
        name: Some(name),
        pid: Some(pid as u64),
        ts: None,
        dur: None,
        tid: (match tid {
            None => None,
            Some(t) => Some(Some(t)),
        }),
        cat: None,
        id: None,
        args: Some(args),
    };
    assert((pid as u64) as u32 == pid);
    assert(tid_of(fraw.tid) == tid);
    assert(event_of_fields('M', fraw) == Some(e));
}

#[verifier::rlimit(100)]
#[verifier::spinoff_prover]
proof fn lemma_event_case_flow(
    name: Seq<char>,
    pid: u32,
    tid: u64,
    ts: u64,
    cat: Seq<char>,
    id: u64,
    begin: bool,
    rest: Seq<char>,
)
    ensures
        begin ==> parse_event(spec_enc_event(EventModel::s { name, pid, tid, ts, cat, id }) + rest)
            == Some((EventModel::s { name, pid, tid, ts, cat, id }, rest)),
        !begin ==> parse_event(spec_enc_event(EventModel::f { name, pid, tid, ts, cat, id })
            + rest) == Some((EventModel::f { name, pid, tid, ts, cat, id }, rest)),
{
    let body = enc_str_field(key_name(), name) + enc_num_field(key_pid(), pid as u64)
        + enc_num_field(key_tid(), tid) + enc_num_field(key_ts(), ts) + enc_str_field(
        key_cat(),
        cat,
    ) + enc_num_field(key_id(), id) + "}"@ + rest;
    lemma_flow_entries(name, pid, tid, ts, cat, id, rest);
    let fraw = RawFields {
        name: Some(name),
        pid: Some(pid as u64),
        ts: Some(ts),
        dur: None,
        tid: Some(Some(tid)),
        cat: Some(cat),
        id: Some(id),
        args: None,
    };
    assert((pid as u64) as u32 == pid);
    if begin {
        let e = EventModel::s { name, pid, tid, ts, cat, id };
        assert(spec_enc_event(e) + rest =~= enc_ph('s') + body);
        lemma_parse_ph_inv('s', body);
        assert(event_of_fields('s', fraw) == Some(e));
    } else {
        let e = EventModel::f { name, pid, tid, ts, cat, id };
        assert(spec_enc_event(e) + rest =~= enc_ph('f') + body);
        lemma_parse_ph_inv('f', body);
        assert(event_of_fields('f', fraw) == Some(e));
    }
}


/// Reading an encoded event undoes its writing, whatever follows it.
#[verifier::rlimit(100)]
#[verifier::spinoff_prover]
pub proof fn lemma_parse_event_inv(e: EventModel, rest: Seq<char>)
    ensures
        parse_event(spec_enc_event(e) + rest) == Some((e, rest)),
{
    lemma_lits();
    match e {
        EventModel::B { name, pid, ts, tid } => {
            lemma_event_case_b(name, pid, ts, tid, rest);
        },
        EventModel::E { pid, ts, tid } => {
            lemma_event_case_e(pid, ts, tid, rest);
        },
        EventModel::X { name, pid, ts, dur, tid } => {
            lemma_event_case_x(name, pid, ts, dur, tid, rest);
        },
        EventModel::M { name, pid, args, tid } => {
            lemma_event_case_m(name, pid, args, tid, rest);
        },
        EventModel::s { name, pid, tid, ts, cat, id } => {
            lemma_event_case_flow(name, pid, tid, ts, cat, id, true, rest);
        },
        EventModel::f { name, pid, tid, ts, cat, id } => {
            lemma_event_case_flow(name, pid, tid, ts, cat, id, false, rest);
        },
        EventModel::I {} => {
            lemma_empty_case(e, 'I', rest);
        },
        EventModel::C {} => {
            lemma_empty_case(e, 'C', rest);
        },
        EventModel::b {} => {
            lemma_empty_case(e, 'b', rest);
        },
        EventModel::n {} => {
            lemma_empty_case(e, 'n', rest);
        },
        EventModel::e {} => {
            lemma_empty_case(e, 'e', rest);
        },
        EventModel::t {} => {
            lemma_empty_case(e, 't', rest);
        },
        EventModel::P {} => {
            lemma_empty_case(e, 'P', rest);
        },
        EventModel::N {} => {
            lemma_empty_case(e, 'N', rest);
        },
        EventModel::O {} => {
            lemma_empty_case(e, 'O', rest);
        },
        EventModel::D {} => {
            lemma_empty_case(e, 'D', rest);
        },
        EventModel::V {} => {
            lemma_empty_case(e, 'V', rest);
        },
        EventModel::v {} => {
            lemma_empty_case(e, 'v', rest);
        },
        EventModel::R {} => {
            lemma_empty_case(e, 'R', rest);
        },
        EventModel::c {} => {
            lemma_empty_case(e, 'c', rest);
        },
    }
}

/// One placeholder case of [`lemma_parse_event_inv`].
#[verifier::rlimit(100)]
#[verifier::spinoff_prover]
proof fn lemma_empty_case(e: EventModel, code: char, rest: Seq<char>)
    requires
        spec_enc_event(e) == enc_ph(code) + "}"@,
        event_of_fields(code, empty_raw()) == Some(e),
    ensures
        parse_event(spec_enc_event(e) + rest) == Some((e, rest)),
{
    lemma_lits();
    assert(spec_enc_event(e) + rest =~= enc_ph(code) + ("}"@ + rest));
    lemma_parse_ph_inv(code, "}"@ + rest);
    assert("}"@ + rest =~= seq!['}'] + rest);
    lemma_entries_close(empty_raw(), rest);
}

// ---------------------------------------------------------------------------
// List- and document-level inversions
// ---------------------------------------------------------------------------

/// Every encoded event begins with an opening brace.
#[verifier::rlimit(100)]
#[verifier::spinoff_prover]
pub proof fn lemma_enc_event_starts(e: EventModel)
    ensures
        spec_enc_event(e).len() > 0,
        spec_enc_event(e)[0] == '{',
{
    lemma_lits();
    match e {
        EventModel::B { .. } => assert(spec_enc_event(e)[0] == '{'),
        EventModel::E { .. } => assert(spec_enc_event(e)[0] == '{'),
        EventModel::X { .. } => assert(spec_enc_event(e)[0] == '{'),
        EventModel::M { .. } => assert(spec_enc_event(e)[0] == '{'),
        EventModel::s { .. } => assert(spec_enc_event(e)[0] == '{'),
        EventModel::f { .. } => assert(spec_enc_event(e)[0] == '{'),
        EventModel::I {} => assert(spec_enc_event(e)[0] == '{'),
        EventModel::C {} => assert(spec_enc_event(e)[0] == '{'),
        EventModel::b {} => assert(spec_enc_event(e)[0] == '{'),
        EventModel::n {} => assert(spec_enc_event(e)[0] == '{'),
        EventModel::e {} => assert(spec_enc_event(e)[0] == '{'),
        EventModel::t {} => assert(spec_enc_event(e)[0] == '{'),
        EventModel::P {} => assert(spec_enc_event(e)[0] == '{'),
        EventModel::N {} => assert(spec_enc_event(e)[0] == '{'),
        EventModel::O {} => assert(spec_enc_event(e)[0] == '{'),
        EventModel::D {} => assert(spec_enc_event(e)[0] == '{'),
        EventModel::V {} => assert(spec_enc_event(e)[0] == '{'),
        EventModel::v {} => assert(spec_enc_event(e)[0] == '{'),
        EventModel::R {} => assert(spec_enc_event(e)[0] == '{'),
        EventModel::c {} => assert(spec_enc_event(e)[0] == '{'),
    }
}

#[verifier::rlimit(100)]
#[verifier::spinoff_prover]
pub proof fn lemma_parse_events_tail_inv(evs: Seq<EventModel>, rest: Seq<char>)
    ensures
        parse_events_tail(spec_enc_list_tail(evs) + (seq![']'] + rest)) == Some((evs, rest)),
    decreases evs.len(),
{
    reveal_strlit("]");
    reveal_strlit(",");
    assert("]"@ =~= seq![']']);
    assert(","@ =~= seq![',']);
    let s = spec_enc_list_tail(evs) + (seq![']'] + rest);
    if evs.len() == 0 {
        assert(s =~= seq![']'] + rest);
        lemma_parse_lit_inv(seq![']'], rest);
        assert(Seq::<EventModel>::empty() =~= evs);
    } else {
        let e0 = evs[0];
        let x2 = spec_enc_list_tail(evs.drop_first()) + (seq![']'] + rest);
        let x1 = spec_enc_event(e0) + x2;
        assert(s =~= seq![','] + x1);
        assert(s[0] == ',');
        lemma_parse_lit_fail(seq![']'], s);
        lemma_parse_lit_inv(seq![','], x1);
        lemma_parse_event_inv(e0, x2);
        assert(x2.len() < s.len());
        lemma_parse_events_tail_inv(evs.drop_first(), rest);
        assert(seq![e0] + evs.drop_first() =~= evs);
    }
}

#[verifier::rlimit(100)]
#[verifier::spinoff_prover]
pub proof fn lemma_parse_events_inv(evs: Seq<EventModel>, rest: Seq<char>)
    ensures
        parse_events(spec_enc_list(evs) + (seq![']'] + rest)) == Some((evs, rest)),
{
    reveal_strlit("]");
    assert("]"@ =~= seq![']']);
    let s = spec_enc_list(evs) + (seq![']'] + rest);
    if evs.len() == 0 {
        assert(s =~= seq![']'] + rest);
        lemma_parse_lit_inv(seq![']'], rest);
        assert(Seq::<EventModel>::empty() =~= evs);
    } else {
        let e0 = evs[0];
        lemma_enc_event_starts(e0);
        let x1 = spec_enc_list_tail(evs.drop_first()) + (seq![']'] + rest);
        assert(s =~= spec_enc_event(e0) + x1);
        assert(s[0] == '{');
        lemma_parse_lit_fail(seq![']'], s);
        lemma_parse_event_inv(e0, x1);
        lemma_parse_events_tail_inv(evs.drop_first(), rest);
        assert(seq![e0] + evs.drop_first() =~= evs);
    }
}

#[verifier::rlimit(100)]
#[verifier::spinoff_prover]
pub proof fn lemma_parse_doc_inv(evs: Seq<EventModel>, rest: Seq<char>)
    ensures
        parse_doc(spec_enc_doc(evs) + rest) == Some((evs, rest)),
{
    lemma_lits();
    let s = spec_enc_doc(evs) + rest;
    let x4 = spec_enc_list(evs) + (seq![']'] + (seq!['}'] + rest));
    let x3 = seq!['['] + x4;
    let x2 = seq![':'] + x3;
    let x1 = key_trace_events() + x2;
    assert(s =~= seq!['{'] + x1);
    lemma_parse_lit_inv(seq!['{'], x1);
    lemma_parse_lit_inv(key_trace_events(), x2);
    lemma_parse_lit_inv(seq![':'], x3);
    lemma_parse_lit_inv(seq!['['], x4);
    lemma_parse_events_inv(evs, seq!['}'] + rest);
    lemma_parse_lit_inv(seq!['}'], rest);
}

// ---------------------------------------------------------------------------
// The round-trip laws
// ---------------------------------------------------------------------------

/// Law: decoding an encoded document yields exactly the events encoded,
/// for every log over the whole phase vocabulary.
pub proof fn lemma_round_trip_doc(evs: Seq<EventModel>)
    ensures
        spec_decode_doc(spec_enc_doc(evs)) == Some(evs),
{
    lemma_parse_doc_inv(evs, Seq::empty());
    assert(spec_enc_doc(evs) + Seq::<char>::empty() =~= spec_enc_doc(evs));
    assert(skip_ws(Seq::<char>::empty()).len() == 0);
}

/// Law: decoding an encoded event yields that event back, for every phase.
pub proof fn lemma_round_trip_event(e: EventModel)
    ensures
        spec_decode_event(spec_enc_event(e)) == Some(e),
{
    lemma_parse_event_inv(e, Seq::empty());
    assert(spec_enc_event(e) + Seq::<char>::empty() =~= spec_enc_event(e));
    assert(skip_ws(Seq::<char>::empty()).len() == 0);
}

/// Law: a document in the canonical encoded form decodes successfully and
/// re-encodes to exactly the same text. (Text with extra whitespace decodes
/// too, but re-encodes to the compact form, so it is left out here.)
pub proof fn lemma_encode_decode_doc(s: Seq<char>)
    requires
        exists|evs: Seq<EventModel>| s == spec_enc_doc(evs),
    ensures
        spec_decode_doc(s) is Some,
        spec_enc_doc(spec_decode_doc(s).unwrap()) == s,
{
    let evs = choose|evs: Seq<EventModel>| s == spec_enc_doc(evs);
    lemma_round_trip_doc(evs);
}

/// Law: a single event in the canonical encoded form decodes successfully
/// and re-encodes to exactly the same text.
pub proof fn lemma_encode_decode_event(s: Seq<char>)
    requires
        exists|e: EventModel| s == spec_enc_event(e),
    ensures
        spec_decode_event(s) is Some,
        spec_enc_event(spec_decode_event(s).unwrap()) == s,
{
    let e = choose|e: EventModel| s == spec_enc_event(e);
    lemma_round_trip_event(e);
}

/// Law: on the wire an absent thread identifier contributes no characters —
/// the `tid` key is omitted entirely — while a present one contributes
/// exactly one `"tid"` entry carrying the given value's digits.
pub proof fn lemma_tid_omission(t: u64)
    ensures
        enc_tid_opt(None) == Seq::<char>::empty(),
        enc_tid_opt(Some(t)) == ","@ + key_tid() + ":"@ + dec_digits(t as nat),
{
}

} // verus!
