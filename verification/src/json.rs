//! Low-level building blocks of the JSON wire format: characters, escaping,
//! decimal numbers, whitespace, and the primitive writers and readers that
//! the event codec is assembled from.
//!
//! Every reader has an exact specification: a `spec` parsing function over
//! `Seq<char>` that consumes a suffix of the input, and the executable reader
//! returns precisely what that function says. Writers state the sequence of
//! characters they append.

use vstd::prelude::*;

verus! {

/// Relies on `String::push`: appends the character to the end of the string.
pub assume_specification[ String::push ](s: &mut String, ch: char)
    ensures
        final(s)@ == old(s)@.push(ch),
;

// ---------------------------------------------------------------------------
// Characters
// ---------------------------------------------------------------------------

/// The JSON whitespace characters.
pub open spec fn is_ws_char(c: char) -> bool {
    c == ' ' || c == '\t' || c == '\n' || c == '\r'
}

/// The decimal digits.
pub open spec fn is_digit_char(c: char) -> bool {
    c == '0' || c == '1' || c == '2' || c == '3' || c == '4' || c == '5' || c == '6' || c == '7'
        || c == '8' || c == '9'
}

/// The digit character for a value below ten.
pub open spec fn digit_to_char(d: nat) -> char {
    if d == 0 {
        '0'
    } else if d == 1 {
        '1'
    } else if d == 2 {
        '2'
    } else if d == 3 {
        '3'
    } else if d == 4 {
        '4'
    } else if d == 5 {
        '5'
    } else if d == 6 {
        '6'
    } else if d == 7 {
        '7'
    } else if d == 8 {
        '8'
    } else {
        '9'
    }
}

/// The value of a digit character.
pub open spec fn char_to_digit(c: char) -> int {
    if c == '0' {
        0
    } else if c == '1' {
        1
    } else if c == '2' {
        2
    } else if c == '3' {
        3
    } else if c == '4' {
        4
    } else if c == '5' {
        5
    } else if c == '6' {
        6
    } else if c == '7' {
        7
    } else if c == '8' {
        8
    } else {
        9
    }
}

fn is_ws_char_exec(c: char) -> (b: bool)
    ensures
        b == is_ws_char(c),
{
    c == ' ' || c == '\t' || c == '\n' || c == '\r'
}

fn is_digit_char_exec(c: char) -> (b: bool)
    ensures
        b == is_digit_char(c),
{
    c == '0' || c == '1' || c == '2' || c == '3' || c == '4' || c == '5' || c == '6' || c == '7'
        || c == '8' || c == '9'
}

fn digit_to_char_exec(d: u64) -> (c: char)
    requires
        d < 10,
    ensures
        c == digit_to_char(d as nat),
{
    if d == 0 {
        '0'
    } else if d == 1 {
        '1'
    } else if d == 2 {
        '2'
    } else if d == 3 {
        '3'
    } else if d == 4 {
        '4'
    } else if d == 5 {
        '5'
    } else if d == 6 {
        '6'
    } else if d == 7 {
        '7'
    } else if d == 8 {
        '8'
    } else {
        '9'
    }
}

fn char_to_digit_exec(c: char) -> (d: u64)
    requires
        is_digit_char(c),
    ensures
        d as int == char_to_digit(c),
        d < 10,
{
    if c == '0' {
        0
    } else if c == '1' {
        1
    } else if c == '2' {
        2
    } else if c == '3' {
        3
    } else if c == '4' {
        4
    } else if c == '5' {
        5
    } else if c == '6' {
        6
    } else if c == '7' {
        7
    } else if c == '8' {
        8
    } else {
        9
    }
}

// ---------------------------------------------------------------------------
// Sequence helpers
// ---------------------------------------------------------------------------

pub proof fn lemma_skip_succ(s: Seq<char>, j: int)
    requires
        0 <= j < s.len(),
    ensures
        s.skip(j).drop_first() == s.skip(j + 1),
        s.skip(j)[0] == s[j],
        s.skip(j).len() == s.len() - j,
{
    assert(s.skip(j).drop_first() =~= s.skip(j + 1));
}

pub proof fn lemma_skip_skip(s: Seq<char>, a: int, b: int)
    requires
        0 <= a,
        0 <= b,
        a + b <= s.len(),
    ensures
        s.skip(a).skip(b) == s.skip(a + b),
{
    assert(s.skip(a).skip(b) =~= s.skip(a + b));
}

// ---------------------------------------------------------------------------
// Escaping of string content
// ---------------------------------------------------------------------------

/// How one character appears inside a JSON string: quotes and backslashes
/// get a backslash before them, everything else stands for itself.
pub open spec fn escape_char(c: char) -> Seq<char> {
    if c == '"' {
        seq!['\\', '"']
    } else if c == '\\' {
        seq!['\\', '\\']
    } else {
        seq![c]
    }
}

/// The escaped form of a whole string.
pub open spec fn escape_seq(s: Seq<char>) -> Seq<char>
    decreases s.len(),
{
    if s.len() == 0 {
        Seq::empty()
    } else {
        escape_char(s[0]) + escape_seq(s.drop_first())
    }
}

pub proof fn lemma_escape_snoc(s: Seq<char>, c: char)
    ensures
        escape_seq(s.push(c)) == escape_seq(s) + escape_char(c),
    decreases s.len(),
{
    if s.len() == 0 {
        assert(s.push(c).drop_first() =~= Seq::<char>::empty());
        assert(escape_seq(Seq::<char>::empty()) == Seq::<char>::empty());
        assert(s.push(c)[0] == c);
        assert(escape_seq(s.push(c)) =~= escape_seq(s) + escape_char(c));
    } else {
        assert(s.push(c).drop_first() =~= s.drop_first().push(c));
        lemma_escape_snoc(s.drop_first(), c);
        assert(escape_seq(s.push(c)) =~= escape_seq(s) + escape_char(c));
    }
}

/// Appends the escaped form of `v` to `out`.
pub fn push_escaped(out: &mut String, v: &str)
    ensures
        final(out)@ == old(out)@ + escape_seq(v@),
{
    let n: usize = v.unicode_len();
    let mut i: usize = 0;
    proof {
        assert(v@.take(0) =~= Seq::<char>::empty());
        assert(out@ + escape_seq(v@.take(0)) =~= out@);
    }
    while i < n
        invariant
            i <= n,
            n == v@.len(),
            out@ == old(out)@ + escape_seq(v@.take(i as int)),
        decreases n - i,
    {
        let c = v.get_char(i);
        let ghost prev = out@;
        if c == '"' {
            out.push('\\');
            out.push('"');
            proof {
                assert(out@ =~= prev + escape_char(c));
            }
        } else if c == '\\' {
            out.push('\\');
            out.push('\\');
            proof {
                assert(out@ =~= prev + escape_char(c));
            }
        } else {
            out.push(c);
            proof {
                assert(out@ =~= prev + escape_char(c));
            }
        }
        proof {
            assert(v@.take(i + 1) =~= v@.take(i as int).push(v@[i as int]));
            lemma_escape_snoc(v@.take(i as int), v@[i as int]);
            assert(out@ =~= old(out)@ + escape_seq(v@.take(i + 1)));
        }
        i = i + 1;
    }
    proof {
        assert(v@.take(n as int) =~= v@);
    }
}

// ---------------------------------------------------------------------------
// Decimal numbers
// ---------------------------------------------------------------------------

/// The decimal digits of `n`, most significant first.
pub open spec fn dec_digits(n: nat) -> Seq<char>
    decreases n,
{
    if n < 10 {
        seq![digit_to_char(n)]
    } else {
        dec_digits(n / 10) + seq![digit_to_char(n % 10)]
    }
}

/// The value of a word of digit characters, read left to right.
pub open spec fn digits_val(s: Seq<char>) -> int
    decreases s.len(),
{
    if s.len() == 0 {
        0
    } else {
        digits_val(s.drop_last()) * 10 + char_to_digit(s.last())
    }
}

/// Appends the decimal form of `n` to `out`.
pub fn push_u64(out: &mut String, n: u64)
    ensures
        final(out)@ == old(out)@ + dec_digits(n as nat),
    decreases n,
{
    if n < 10 {
        let c = digit_to_char_exec(n);
        out.push(c);
        proof {
            assert(out@ =~= old(out)@ + dec_digits(n as nat));
        }
    } else {
        push_u64(out, n / 10);
        let c = digit_to_char_exec(n % 10);
        out.push(c);
        proof {
            assert(out@ =~= old(out)@ + dec_digits(n as nat));
        }
    }
}

// ---------------------------------------------------------------------------
// Reading: whitespace
// ---------------------------------------------------------------------------

/// The input with its leading whitespace removed.
pub open spec fn skip_ws(s: Seq<char>) -> Seq<char>
    decreases s.len(),
{
    if s.len() > 0 && is_ws_char(s[0]) {
        skip_ws(s.drop_first())
    } else {
        s
    }
}

/// Advances the cursor past any whitespace.
pub fn skip_ws_exec(s: &str, i: usize) -> (r: usize)
    requires
        i <= s@.len(),
    ensures
        i <= r <= s@.len(),
        s@.skip(r as int) == skip_ws(s@.skip(i as int)),
{
    let n: usize = s.unicode_len();
    let mut j: usize = i;
    loop
        invariant
            i <= j <= n,
            n == s@.len(),
            skip_ws(s@.skip(i as int)) == skip_ws(s@.skip(j as int)),
        ensures
            i <= j <= n,
            s@.skip(j as int) == skip_ws(s@.skip(i as int)),
        decreases n - j,
    {
        if j >= n {
            proof {
                assert(s@.skip(j as int) =~= Seq::<char>::empty());
            }
            break;
        }
        let c = s.get_char(j);
        proof {
            lemma_skip_succ(s@, j as int);
        }
        if !is_ws_char_exec(c) {
            break;
        }
        j = j + 1;
    }
    j
}

// ---------------------------------------------------------------------------
// Reading: literal tokens
// ---------------------------------------------------------------------------

/// Consumes leading whitespace and then the exact characters of `lit`.
pub open spec fn parse_lit(s: Seq<char>, lit: Seq<char>) -> Option<Seq<char>> {
    let t = skip_ws(s);
    if lit.is_prefix_of(t) {
        Some(t.skip(lit.len() as int))
    } else {
        None
    }
}

/// Matches `lit` at the cursor, after whitespace.
pub fn eat_lit(s: &str, i: usize, lit: &str) -> (r: Option<usize>)
    requires
        i <= s@.len(),
    ensures
        match r {
            Some(j) => {
                &&& i <= j <= s@.len()
                &&& parse_lit(s@.skip(i as int), lit@) == Some(s@.skip(j as int))
            },
            None => parse_lit(s@.skip(i as int), lit@) is None,
        },
{
    let j = skip_ws_exec(s, i);
    let ghost t = s@.skip(j as int);
    let m: usize = lit.unicode_len();
    let n: usize = s.unicode_len();
    if m > n - j {
        proof {
            assert(!lit@.is_prefix_of(t));
        }
        return None;
    }
    let mut k: usize = 0;
    while k < m
        invariant
            0 <= k <= m,
            j + m <= n,
            n == s@.len(),
            m == lit@.len(),
            t == s@.skip(j as int),
            i <= j <= n,
            s@.skip(j as int) == skip_ws(s@.skip(i as int)),
            forall|u: int| 0 <= u < k ==> lit@[u] == s@[j + u],
        decreases m - k,
    {
        let a = s.get_char(j + k);
        let b = lit.get_char(k);
        if a != b {
            proof {
                assert(t[k as int] == s@[j + k]);
                assert(!lit@.is_prefix_of(t)) by {
                    if lit@.is_prefix_of(t) {
                        assert(lit@ =~= t.subrange(0, m as int));
                        assert(lit@[k as int] == t[k as int]);
                    }
                };
            }
            return None;
        }
        k = k + 1;
    }
    proof {
        assert(lit@ =~= t.subrange(0, m as int));
        assert(lit@.is_prefix_of(t));
        lemma_skip_skip(s@, j as int, m as int);
        assert(t.skip(m as int) == s@.skip(j + m));
    }
    Some(j + m)
}

// ---------------------------------------------------------------------------
// Reading: string bodies
// ---------------------------------------------------------------------------

/// Reads the content of a JSON string after its opening quote, undoing the
/// escaping of [`escape_seq`], up to and including the closing quote.
pub open spec fn parse_string_body(s: Seq<char>) -> Option<(Seq<char>, Seq<char>)>
    decreases s.len(),
{
    if s.len() == 0 {
        None
    } else if s[0] == '"' {
        Some((Seq::empty(), s.drop_first()))
    } else if s[0] == '\\' {
        if s.len() >= 2 && (s[1] == '"' || s[1] == '\\') {
            match parse_string_body(s.skip(2)) {
                None => None,
                Some((v, r)) => Some((seq![s[1]] + v, r)),
            }
        } else {
            None
        }
    } else {
        match parse_string_body(s.drop_first()) {
            None => None,
            Some((v, r)) => Some((seq![s[0]] + v, r)),
        }
    }
}

/// Prepends `pre` to the content of a successful string-body parse.
pub open spec fn opt_prepend(pre: Seq<char>, o: Option<(Seq<char>, Seq<char>)>) -> Option<
    (Seq<char>, Seq<char>),
> {
    match o {
        None => None,
        Some((v, r)) => Some((pre + v, r)),
    }
}

/// Reads a string body at the cursor (the opening quote already consumed).
pub fn parse_string_body_exec(s: &str, i: usize) -> (r: Option<(String, usize)>)
    requires
        i <= s@.len(),
    ensures
        match r {
            Some((v, j)) => {
                &&& i <= j <= s@.len()
                &&& parse_string_body(s@.skip(i as int)) == Some((v@, s@.skip(j as int)))
            },
            None => parse_string_body(s@.skip(i as int)) is None,
        },
{
    let n: usize = s.unicode_len();
    let mut out = String::new();
    let mut j: usize = i;
    proof {
        let o = parse_string_body(s@.skip(i as int));
        match o {
            None => {},
            Some((v, r)) => {
                assert(Seq::<char>::empty() + v =~= v);
            },
        }
    }
    loop
        invariant
            i <= j <= n,
            n == s@.len(),
            parse_string_body(s@.skip(i as int)) == opt_prepend(
                out@,
                parse_string_body(s@.skip(j as int)),
            ),
        decreases n - j,
    {
        if j >= n {
            proof {
                assert(s@.skip(j as int) =~= Seq::<char>::empty());
            }
            return None;
        }
        let c = s.get_char(j);
        proof {
            lemma_skip_succ(s@, j as int);
        }
        if c == '"' {
            proof {
                assert(out@ + Seq::<char>::empty() =~= out@);
            }
            return Some((out, j + 1));
        }
        if c == '\\' {
            if j + 1 >= n {
                return None;
            }
            let c2 = s.get_char(j + 1);
            proof {
                assert(s@.skip(j as int)[1] == s@[j + 1]);
            }
            if c2 == '"' || c2 == '\\' {
                let ghost prev = out@;
                out.push(c2);
                proof {
                    lemma_skip_skip(s@, j as int, 2);
                    assert(s@.skip(j as int).skip(2) == s@.skip(j + 2));
                    assert(out@ =~= prev + seq![c2]);
                    match parse_string_body(s@.skip(j + 2)) {
                        None => {},
                        Some((v, r)) => {
                            assert((prev + seq![c2]) + v =~= prev + (seq![c2] + v));
                        },
                    }
                }
                j = j + 2;
            } else {
                return None;
            }
        } else {
            let ghost prev = out@;
            out.push(c);
            proof {
                assert(out@ =~= prev + seq![c]);
                match parse_string_body(s@.skip(j + 1)) {
                    None => {},
                    Some((v, r)) => {
                        assert((prev + seq![c]) + v =~= prev + (seq![c] + v));
                    },
                }
            }
            j = j + 1;
        }
    }
}

// ---------------------------------------------------------------------------
// Reading: numbers
// ---------------------------------------------------------------------------

/// The length of the run of digits at the head of the input.
pub open spec fn digit_run_len(s: Seq<char>) -> nat
    decreases s.len(),
{
    if s.len() > 0 && is_digit_char(s[0]) {
        1 + digit_run_len(s.drop_first())
    } else {
        0
    }
}

/// Reads an unsigned decimal number after whitespace. Fails when no digit is
/// present or the value exceeds `u64::MAX`.
pub open spec fn parse_num(s: Seq<char>) -> Option<(u64, Seq<char>)> {
    let t = skip_ws(s);
    let k = digit_run_len(t);
    if k == 0 {
        None
    } else if digits_val(t.take(k as int)) <= u64::MAX {
        Some(((digits_val(t.take(k as int)) as u64), t.skip(k as int)))
    } else {
        None
    }
}

pub proof fn lemma_digit_run(t: Seq<char>, m: nat)
    requires
        m <= t.len(),
        forall|u: int| 0 <= u < m ==> is_digit_char(t[u]),
        m == t.len() || !is_digit_char(t[m as int]),
    ensures
        digit_run_len(t) == m,
    decreases m,
{
    if m == 0 {
    } else {
        assert(is_digit_char(t[0]));
        lemma_digit_run(t.drop_first(), (m - 1) as nat);
    }
}

pub proof fn lemma_digits_val_nonneg(s: Seq<char>)
    ensures
        digits_val(s) >= 0,
    decreases s.len(),
{
    if s.len() > 0 {
        lemma_digits_val_nonneg(s.drop_last());
        assert(char_to_digit(s.last()) >= 0);
    }
}

pub proof fn lemma_digits_val_prefix_mono(s: Seq<char>, m: int)
    requires
        0 <= m <= s.len(),
    ensures
        digits_val(s.take(m)) <= digits_val(s),
    decreases s.len() - m,
{
    if m == s.len() {
        assert(s.take(m) =~= s);
    } else {
        assert(s.take(m + 1).drop_last() =~= s.take(m));
        lemma_digits_val_nonneg(s.take(m));
        assert(char_to_digit(s.take(m + 1).last()) >= 0);
        assert(digits_val(s.take(m + 1)) == digits_val(s.take(m)) * 10 + char_to_digit(
            s.take(m + 1).last(),
        ));
        assert(digits_val(s.take(m)) * 10 >= digits_val(s.take(m)));
        assert(digits_val(s.take(m)) <= digits_val(s.take(m + 1)));
        lemma_digits_val_prefix_mono(s, m + 1);
    }
}

/// Reads a decimal number at the cursor.
pub fn parse_num_exec(s: &str, i: usize) -> (r: Option<(u64, usize)>)
    requires
        i <= s@.len(),
    ensures
        match r {
            Some((v, j)) => {
                &&& i <= j <= s@.len()
                &&& parse_num(s@.skip(i as int)) == Some((v, s@.skip(j as int)))
            },
            None => parse_num(s@.skip(i as int)) is None,
        },
{
    let n: usize = s.unicode_len();
    let j0 = skip_ws_exec(s, i);
    let ghost t = s@.skip(j0 as int);
    let mut k: usize = j0;
    while k < n && is_digit_char_exec2(s, k)
        invariant
            j0 <= k <= n,
            n == s@.len(),
            i <= j0 <= n,
            t == s@.skip(j0 as int),
            s@.skip(j0 as int) == skip_ws(s@.skip(i as int)),
            forall|u: int| j0 <= u < k ==> is_digit_char(s@[u]),
        decreases n - k,
    {
        k = k + 1;
    }
    proof {
        assert(forall|u: int| 0 <= u < k - j0 ==> t[u] == s@[j0 + u]);
        if k < n {
            assert(t[k - j0] == s@[k as int]);
        }
        lemma_digit_run(t, (k - j0) as nat);
    }
    if k == j0 {
        return None;
    }
    let ghost ds = t.take((k - j0) as int);
    let mut acc: u64 = 0;
    let mut p: usize = j0;
    proof {
        assert(ds.take(0) =~= Seq::<char>::empty());
    }
    while p < k
        invariant
            j0 <= p <= k <= n,
            n == s@.len(),
            t == s@.skip(j0 as int),
            ds == t.take((k - j0) as int),
            digit_run_len(t) == k - j0,
            forall|u: int| j0 <= u < k ==> is_digit_char(s@[u]),
            acc as int == digits_val(ds.take((p - j0) as int)),
            i <= j0,
            s@.skip(j0 as int) == skip_ws(s@.skip(i as int)),
        decreases k - p,
    {
        let c = s.get_char(p);
        proof {
            assert(t[p - j0] == s@[p as int]);
            assert(ds[p - j0] == s@[p as int]);
        }
        let d = char_to_digit_exec(c);
        let step = match acc.checked_mul(10) {
            Some(x) => x.checked_add(d),
            None => None,
        };
        proof {
            assert(ds.take((p - j0) + 1).drop_last() =~= ds.take((p - j0) as int));
            assert(ds.take((p - j0) + 1).last() == ds[p - j0]);
        }
        match step {
            Some(y) => {
                acc = y;
            },
            None => {
                proof {
                    assert(digits_val(ds.take((p - j0) + 1)) > u64::MAX);
                    lemma_digits_val_prefix_mono(ds, (p - j0) + 1);
                    assert(ds.take((k - j0) as int) =~= ds);
                    assert(digits_val(ds) > u64::MAX);
                }
                return None;
            },
        }
        p = p + 1;
    }
    proof {
        assert(ds.take((k - j0) as int) =~= ds);
        lemma_skip_skip(s@, j0 as int, (k - j0) as int);
        assert(t.skip((k - j0) as int) == s@.skip(k as int));
    }
    Some((acc, k))
}

/// Tests whether the character at `k` is a digit.
fn is_digit_char_exec2(s: &str, k: usize) -> (b: bool)
    requires
        k < s@.len(),
    ensures
        b == is_digit_char(s@[k as int]),
{
    is_digit_char_exec(s.get_char(k))
}

} // verus!
