//! Traceroute: the command that runs it, the hops read from the output of
//! `tracert` (Windows) and `traceroute` (macOS, Linux), and the result
//! reported for a run.
use vstd::prelude::*;

use crate::command_runner::{combined_text, RunOutput};
use crate::models::{OsKind, TracerouteHop, TracerouteResult};
use crate::text::{
    ascii_lower, ascii_lowered, chars_of, is_digit, lines, lines_of, same, slice_of, string_of,
    string_vec, string_views, strip_set, strip_suffixes, stripped_set, stripped_suffixes, trim, trimmed, words,
    words_of, NestedView,
};
use crate::validation::{all_digits, sanitize_output, sanitized, truncate_output};
use vstd::utf8::*;

verus! {

// ---------------------------------------------------------------------------
// Numbers as `f64::from_str` reads them
// ---------------------------------------------------------------------------

/// A sign character.
pub open spec fn is_sign(c: char) -> bool {
    c == '+' || c == '-'
}

/// Position of the first exponent mark (`e` or `E`), or -1.
pub open spec fn exp_mark(s: Seq<char>) -> int
    decreases s.len(),
{
    if s.len() == 0 {
        -1
    } else if s[0] == 'e' || s[0] == 'E' {
        0
    } else {
        let r = exp_mark(s.drop_first());
        if r < 0 {
            -1
        } else {
            r + 1
        }
    }
}

/// Digits with at most one decimal point, and at least one digit.
pub open spec fn mantissa_text(m: Seq<char>) -> bool {
    &&& forall|i: int| 0 <= i < m.len() ==> is_digit(#[trigger] m[i]) || m[i] == '.'
    &&& exists|i: int| 0 <= i < m.len() && is_digit(#[trigger] m[i])
    &&& forall|i: int, j: int| 0 <= i < j < m.len() && #[trigger] m[i] == '.' ==> #[trigger] m[j] != '.'
}

/// An optional sign followed by at least one digit.
pub open spec fn exponent_text(x: Seq<char>) -> bool {
    let d = if x.len() > 0 && is_sign(x[0]) {
        x.drop_first()
    } else {
        x
    };
    d.len() > 0 && all_digits(d)
}

/// A decimal number with an optional exponent.
pub open spec fn number_text(b: Seq<char>) -> bool {
    let k = exp_mark(b);
    if k < 0 {
        mantissa_text(b)
    } else {
        mantissa_text(b.subrange(0, k)) && exponent_text(b.subrange(k + 1, b.len() as int))
    }
}

/// The text `f64::from_str` accepts, by the grammar of its documentation: an
/// optional sign, then `inf`, `infinity` or `nan` in any case, or a number.
pub open spec fn float_text(s: Seq<char>) -> bool {
    let b = if s.len() > 0 && is_sign(s[0]) {
        s.drop_first()
    } else {
        s
    };
    let l = ascii_lower(b);
    l == "inf"@ || l == "infinity"@ || l == "nan"@ || number_text(b)
}

fn is_exp_at(v: &[char], i: usize) -> (r: bool)
    requires
        i < v@.len(),
    ensures
        r == (v@[i as int] == 'e' || v@[i as int] == 'E'),
{
    v[i] == 'e' || v[i] == 'E'
}

proof fn lemma_exp_mark(s: Seq<char>, i: int)
    requires
        0 <= i <= s.len(),
        forall|j: int| 0 <= j < i ==> #[trigger] s[j] != 'e' && s[j] != 'E',
    ensures
        i < s.len() && (s[i] == 'e' || s[i] == 'E') ==> exp_mark(s) == i,
        i == s.len() ==> exp_mark(s) == -1,
    decreases i,
{
    if i > 0 {
        lemma_exp_mark(s.drop_first(), i - 1);
    }
}

fn is_mantissa(m: &[char]) -> (r: bool)
    ensures
        r == mantissa_text(m@),
{
    let n = m.len();
    let mut digit = false;
    let mut dot = false;
    for i in 0..n
        invariant
            n == m@.len(),
            forall|j: int| 0 <= j < i ==> is_digit(#[trigger] m@[j]) || m@[j] == '.',
            digit <==> exists|j: int| 0 <= j < i && is_digit(#[trigger] m@[j]),
            dot <==> exists|j: int| 0 <= j < i && #[trigger] m@[j] == '.',
            forall|a: int, b: int| 0 <= a < b < i && #[trigger] m@[a] == '.' ==> #[trigger] m@[b]
                != '.',
    {
        let c = m[i];
        if '0' <= c && c <= '9' {
            digit = true;
        } else if c == '.' {
            if dot {
                assert(!mantissa_text(m@)) by {
                    let a = choose|j: int| 0 <= j < i && #[trigger] m@[j] == '.';
                    assert(m@[a] == '.' && m@[i as int] == '.');
                }
                return false;
            }
            dot = true;
        } else {
            assert(!(is_digit(m@[i as int]) || m@[i as int] == '.'));
            return false;
        }
    }
    digit
}

fn is_exponent(x: &[char]) -> (r: bool)
    ensures
        r == exponent_text(x@),
{
    let n = x.len();
    let start: usize = if n > 0 && (x[0] == '+' || x[0] == '-') {
        1
    } else {
        0
    };
    let d = slice_of(x, start, n);
    assert(start == 1 ==> d@ =~= x@.drop_first());
    assert(start == 0 ==> d@ =~= x@);
    assert(exponent_text(x@) == (d@.len() > 0 && all_digits(d@)));
    if d.len() == 0 {
        return false;
    }
    let m = d.len();
    for i in 0..m
        invariant
            m == d@.len(),
            exponent_text(x@) == (d@.len() > 0 && all_digits(d@)),
            forall|j: int| 0 <= j < i ==> is_digit(#[trigger] d@[j]),
    {
        if !('0' <= d[i] && d[i] <= '9') {
            assert(!is_digit(d@[i as int]));
            assert(!all_digits(d@));
            return false;
        }
    }
    true
}

fn is_number(b: &[char]) -> (r: bool)
    ensures
        r == number_text(b@),
{
    let n = b.len();
    let mut i: usize = 0;
    while i < n && !is_exp_at(b, i)
        invariant
            i <= n == b@.len(),
            forall|j: int| 0 <= j < i ==> #[trigger] b@[j] != 'e' && b@[j] != 'E',
        decreases n - i,
    {
        i += 1;
    }
    proof {
        lemma_exp_mark(b@, i as int);
    }
    if i == n {
        assert(b@.subrange(0, n as int) =~= b@);
        is_mantissa(b)
    } else {
        let m = slice_of(b, 0, i);
        let x = slice_of(b, i + 1, n);
        is_mantissa(&m) && is_exponent(&x)
    }
}

/// Whether `f64::from_str` would accept the characters of `v`.
pub fn is_float_token(v: &[char]) -> (r: bool)
    ensures
        r == float_text(v@),
{
    let n = v.len();
    let start: usize = if n > 0 && (v[0] == '+' || v[0] == '-') {
        1
    } else {
        0
    };
    let b = slice_of(v, start, n);
    assert(start == 1 ==> b@ =~= v@.drop_first());
    assert(start == 0 ==> b@ =~= v@);
    let l = ascii_lowered(&b);
    let inf = chars_of("inf");
    let infinity = chars_of("infinity");
    let nan = chars_of("nan");
    same(&l, &inf) || same(&l, &infinity) || same(&l, &nan) || is_number(&b)
}

// ---------------------------------------------------------------------------
// Hops
// ---------------------------------------------------------------------------

/// A hop as (index, host, latency token).
pub open spec fn hop_view(h: TracerouteHop) -> (u32, Option<Seq<char>>, Option<Seq<char>>) {
    (h.index, h.host.deep_view(), h.latency_ms.deep_view())
}

/// The views of a sequence of hops.
pub open spec fn hop_views(h: Seq<TracerouteHop>) -> Seq<(u32, Option<Seq<char>>, Option<Seq<char>>)> {
    Seq::new(h.len(), |i: int| hop_view(h[i]))
}

/// The characters an address in `tracert` output is made of.
pub open spec fn address_chars() -> Seq<char> {
    "0123456789.:"@
}

/// A word read as a latency: the word without trailing `ms`, when that is a
/// number.
pub open spec fn latency_token(w: Seq<char>) -> Option<Seq<char>> {
    let t = strip_suffixes(w, "ms"@);
    if float_text(t) {
        Some(t)
    } else {
        None
    }
}

/// The hop that line `i` of `tracert` output stands for: a trimmed line that
/// starts with a digit, whose last word (stripped to address characters) is
/// the host and whose second word is the latency.
pub open spec fn tracert_hop(i: int, line: Seq<char>) -> Option<(u32, Option<Seq<char>>, Option<Seq<char>>)> {
    let t = trim(line);
    if t.len() > 0 && is_digit(t[0]) {
        let w = words(t);
        let host = if w.len() > 0 {
            strip_set(w.last(), address_chars(), false)
        } else {
            Seq::<char>::empty()
        };
        Some(
            (
                i as u32,
                if host.len() > 0 {
                    Some(host)
                } else {
                    None
                },
                if w.len() > 1 {
                    latency_token(w[1])
                } else {
                    None
                },
            ),
        )
    } else {
        None
    }
}

/// The first word of `w` from position `k` on that reads as a latency.
pub open spec fn first_latency(w: Seq<Seq<char>>, k: int) -> Option<Seq<char>>
    decreases w.len() - k,
{
    if k < 0 || k >= w.len() {
        None
    } else if latency_token(w[k]) is Some {
        latency_token(w[k])
    } else {
        first_latency(w, k + 1)
    }
}

/// The hop that line `i` of `traceroute` output stands for: a trimmed line
/// that starts with a digit, whose second word (without parentheses) is the
/// host and whose first word that reads as a number is the latency; hops
/// count from one.
pub open spec fn traceroute_hop(i: int, line: Seq<char>) -> Option<(u32, Option<Seq<char>>, Option<Seq<char>>)> {
    let t = trim(line);
    if t.len() > 0 && is_digit(t[0]) {
        let w = words(t);
        Some(
            (
                (i + 1) as u32,
                if w.len() > 1 {
                    Some(strip_set(w[1], "()"@, true))
                } else {
                    None
                },
                first_latency(w, 0),
            ),
        )
    } else {
        None
    }
}

/// The hops of the first `n` lines of `ls`, for `tracert` output when
/// `windows`, else for `traceroute` output.
pub open spec fn parsed_hops(ls: Seq<Seq<char>>, n: int, windows: bool) -> Seq<(u32, Option<Seq<char>>, Option<Seq<char>>)>
    decreases n,
{
    if n <= 0 || n > ls.len() {
        Seq::empty()
    } else {
        let r = parsed_hops(ls, n - 1, windows);
        let h = if windows {
            tracert_hop(n - 1, ls[n - 1])
        } else {
            traceroute_hop(n - 1, ls[n - 1])
        };
        match h {
            Some(x) => r.push(x),
            None => r,
        }
    }
}

/// The hops of a whole output.
pub open spec fn hops_of(stdout: Seq<char>, windows: bool) -> Seq<(u32, Option<Seq<char>>, Option<Seq<char>>)> {
    let ls = lines(stdout);
    parsed_hops(ls, ls.len() as int, windows)
}

fn latency_of(w: &Vec<char>) -> (r: Option<String>)
    ensures
        r.deep_view() == latency_token(w@),
{
    let ms = chars_of("ms");
    let t = stripped_suffixes(w, &ms);
    if is_float_token(&t) {
        Some(string_of(&t))
    } else {
        None
    }
}

fn first_latency_of(w: &Vec<Vec<char>>) -> (r: Option<String>)
    ensures
        r.deep_view() == first_latency(w.views(), 0),
{
    let n = w.len();
    let mut k = n;
    let mut found: Option<String> = None;
    while k > 0
        invariant
            k <= n == w@.len(),
            found.deep_view() == first_latency(w.views(), k as int),
        decreases k,
    {
        k -= 1;
        assert(w.views()[k as int] == w@[k as int]@);
        let l = latency_of(&w[k]);
        if l.is_some() {
            found = l;
        }
    }
    found
}

fn hop_of_line(i: usize, line: &Vec<char>, windows: bool) -> (r: Option<TracerouteHop>)
    requires
        i < usize::MAX,
    ensures
        match r {
            Some(h) => (if windows {
                tracert_hop(i as int, line@)
            } else {
                traceroute_hop(i as int, line@)
            }) == Some(hop_view(h)),
            None => (if windows {
                tracert_hop(i as int, line@)
            } else {
                traceroute_hop(i as int, line@)
            }) is None,
        },
{
    let t = trimmed(line);
    if t.len() == 0 || !('0' <= t[0] && t[0] <= '9') {
        return None;
    }
    let w = words_of(&t);
    if windows {
        let host: Vec<char> = if w.len() > 0 {
            let addr = chars_of("0123456789.:");
            assert(w.views().last() == w@[w@.len() - 1]@);
            stripped_set(&w[w.len() - 1], &addr, false)
        } else {
            Vec::new()
        };
        let latency = if w.len() > 1 {
            assert(w.views()[1] == w@[1]@);
            latency_of(&w[1])
        } else {
            None
        };
        let host_text = if host.len() > 0 {
            Some(string_of(&host))
        } else {
            None
        };
        Some(TracerouteHop { index: #[verifier::truncate] (i as u32), host: host_text, latency_ms: latency })
    } else {
        let host = if w.len() > 1 {
            let parens = chars_of("()");
            assert(w.views()[1] == w@[1]@);
            Some(string_of(&stripped_set(&w[1], &parens, true)))
        } else {
            None
        };
        let latency = first_latency_of(&w);
        Some(TracerouteHop { index: #[verifier::truncate] ((i + 1) as u32), host, latency_ms: latency })
    }
}

fn parse_hops(stdout: &str, windows: bool) -> (r: Vec<TracerouteHop>)
    ensures
        hop_views(r@) == hops_of(stdout@, windows),
{
    let v = chars_of(stdout);
    let ls = lines_of(&v);
    let n = ls.len();
    let mut hops: Vec<TracerouteHop> = Vec::new();
    for i in 0..n
        invariant
            n == ls@.len(),
            ls.views() == lines(stdout@),
            hop_views(hops@) == parsed_hops(ls.views(), i as int, windows),
    {
        assert(ls.views()[i as int] == ls@[i as int]@);
        let h = hop_of_line(i, &ls[i], windows);
        match h {
            Some(x) => {
                hops.push(x);
            },
            None => {},
        }
        assert(hop_views(hops@) =~= parsed_hops(ls.views(), i + 1, windows));
    }
    hops
}

/// Read the hops of `tracert` output (Windows), whose lines look like
/// `1     1 ms     1 ms     1 ms  192.168.1.1`.
pub fn parse_tracert(out: &RunOutput) -> (r: Vec<TracerouteHop>)
    ensures
        hop_views(r@) == hops_of(out.stdout@, true),
{
    parse_hops(out.stdout.as_str(), true)
}

/// Read the hops of `traceroute` output (macOS, Linux), whose lines look
/// like ` 1  router (192.168.1.1)  1.123 ms  1.456 ms  1.789 ms`.
pub fn parse_traceroute(out: &RunOutput) -> (r: Vec<TracerouteHop>)
    ensures
        hop_views(r@) == hops_of(out.stdout@, false),
{
    parse_hops(out.stdout.as_str(), false)
}

// ---------------------------------------------------------------------------
// Runs
// ---------------------------------------------------------------------------

/// The most bytes of raw output a traceroute result keeps.
pub const RAW_OUTPUT_LIMIT: usize = 4000;

/// The program and arguments of a traceroute to `host` with at most 30 hops.
pub fn traceroute_command(os: OsKind, host: &str) -> (r: Vec<String>)
    ensures
        os == OsKind::Windows ==> string_views(r@) == seq!["tracert"@, "-d"@, "-w"@, "1000"@, "-h"@, "30"@, host@],
        os != OsKind::Windows ==> string_views(r@) == seq!["traceroute"@, "-m"@, "30"@, "-w"@, "1"@, host@],
{
    let r = match os {
        OsKind::Windows => string_vec(&["tracert", "-d", "-w", "1000", "-h", "30", host]),
        _ => string_vec(&["traceroute", "-m", "30", "-w", "1", host]),
    };
    proof {
        if os == OsKind::Windows {
            assert(string_views(r@) =~= seq!["tracert"@, "-d"@, "-w"@, "1000"@, "-h"@, "30"@, host@]);
        } else {
            assert(string_views(r@) =~= seq!["traceroute"@, "-m"@, "30"@, "-w"@, "1"@, host@]);
        }
    }
    r
}

/// The raw output kept in a result: the sanitised joined output, cut to
/// [`RAW_OUTPUT_LIMIT`] bytes.
pub open spec fn raw_text(out: RunOutput) -> Seq<char> {
    let s = sanitized(combined_text(out));
    if encode_utf8(s).len() <= RAW_OUTPUT_LIMIT {
        s
    } else {
        decode_utf8(encode_utf8(s).subrange(0, RAW_OUTPUT_LIMIT as int)) + "...[truncated]"@
    }
}

/// The raw output can be cut at [`RAW_OUTPUT_LIMIT`] bytes without splitting
/// a character (cutting inside one would panic).
pub open spec fn raw_cut_ok(out: RunOutput) -> bool {
    let b = encode_utf8(sanitized(combined_text(out)));
    b.len() <= RAW_OUTPUT_LIMIT || is_char_boundary(b, RAW_OUTPUT_LIMIT as int)
}

/// Whether the raw output of `out` can be cut at [`RAW_OUTPUT_LIMIT`] bytes.
pub fn raw_output_fits(out: &RunOutput) -> (r: bool)
    ensures
        r == raw_cut_ok(*out),
{
    let s = sanitize_output(out.combined().as_str());
    if !crate::validation::utf8_longer_than(&chars_of(s.as_str()), RAW_OUTPUT_LIMIT) {
        return true;
    }
    s.as_str().is_char_boundary(RAW_OUTPUT_LIMIT)
}

/// The result of a traceroute to `host` whose run produced `out`: the hops,
/// the raw output, and an error when the tool exited with a failure status.
pub fn traceroute_result(os: OsKind, host: &str, out: &RunOutput) -> (r: TracerouteResult)
    requires
        raw_cut_ok(*out),
    ensures
        r.ok == (out.status == 0),
        r.host@ == host@,
        hop_views(r.hops@) == hops_of(out.stdout@, os == OsKind::Windows),
        r.raw.deep_view() == Some(raw_text(*out)),
        out.status == 0 ==> r.error is None,
        out.status != 0 ==> r.error.deep_view() == Some(
            if os == OsKind::Windows {
                "tracert exited with non-zero status"@
            } else {
                "traceroute exited with non-zero status"@
            },
        ),
{
    let windows = match os {
        OsKind::Windows => true,
        _ => false,
    };
    let hops = if windows {
        parse_tracert(out)
    } else {
        parse_traceroute(out)
    };
    let s = sanitize_output(out.combined().as_str());
    let raw = truncate_output(s.as_str(), RAW_OUTPUT_LIMIT);
    let error = if out.success() {
        None
    } else if windows {
        Some("tracert exited with non-zero status".to_owned())
    } else {
        Some("traceroute exited with non-zero status".to_owned())
    };
    TracerouteResult { ok: out.success(), host: host.to_owned(), hops, raw: Some(raw), error }
}

} // verus!
