//! Validation of user-supplied values and sanitising of command output.
use vstd::prelude::*;
use vstd::string::StringSliceAdditionalSpecFns;
use vstd::utf8::*;

use crate::errors::{is_validation, outcome, AppError, AppResult};
use crate::text::{
    chars_of, concat, has_char, has_prefix, is_digit, lemma_split_nonempty,
    lemma_trim_end_prefix, lemma_trim_idempotent, lemma_trim_start_suffix, slice_of, split,
    split_on, starts_with, string_of, trim, trim_end, trim_start, trimmed, NestedView,
};

verus! {

broadcast use vstd::utf8::char_is_scalar;

// ---------------------------------------------------------------------------
// Decimal and hexadecimal digits
// ---------------------------------------------------------------------------

/// The value of a run of decimal digits.
pub open spec fn digits_value(d: Seq<char>) -> int
    decreases d.len(),
{
    if d.len() == 0 {
        0
    } else {
        digits_value(d.drop_last()) * 10 + (d.last() as int - '0' as int)
    }
}

/// Every character is a decimal digit.
pub open spec fn all_digits(d: Seq<char>) -> bool {
    forall|i: int| 0 <= i < d.len() ==> is_digit(#[trigger] d[i])
}

/// A non-empty run of decimal digits whose value is at most `cap`.
pub open spec fn decimal_at_most(d: Seq<char>, cap: int) -> bool {
    d.len() > 0 && all_digits(d) && digits_value(d) <= cap
}

/// `str::parse::<u8>` accepts `p`: an optional `+`, then digits worth at most 255.
pub open spec fn u8_text(p: Seq<char>) -> bool {
    let d = if p.len() > 0 && p[0] == '+' {
        p.drop_first()
    } else {
        p
    };
    decimal_at_most(d, 255)
}

/// The value of the text that [`u8_text`] accepts.
pub open spec fn u8_value(p: Seq<char>) -> int {
    if p.len() > 0 && p[0] == '+' {
        digits_value(p.drop_first())
    } else {
        digits_value(p)
    }
}

pub proof fn lemma_digits_nonneg(d: Seq<char>)
    requires
        all_digits(d),
    ensures
        digits_value(d) >= 0,
    decreases d.len(),
{
    if d.len() > 0 {
        let e = d.drop_last();
        assert(all_digits(e));
        lemma_digits_nonneg(e);
        assert(is_digit(d[d.len() - 1]));
    }
}

pub proof fn lemma_digits_prefix_le(d: Seq<char>, j: int)
    requires
        0 <= j <= d.len(),
        all_digits(d),
    ensures
        digits_value(d.take(j)) <= digits_value(d),
    decreases d.len() - j,
{
    if j < d.len() {
        let e = d.drop_last();
        assert(all_digits(e));
        assert(e.take(j) =~= d.take(j));
        lemma_digits_prefix_le(e, j);
        lemma_digits_nonneg(e);
        assert(is_digit(d[d.len() - 1]));
    } else {
        assert(d.take(j) =~= d);
    }
}

/// Whether `p` is a non-empty run of decimal digits worth at most `cap`.
pub fn is_decimal_at_most(p: &[char], cap: u32) -> (r: bool)
    requires
        cap <= 65535,
    ensures
        r == decimal_at_most(p@, cap as int),
{
    let n = p.len();
    if n == 0 {
        return false;
    }
    let mut v: u32 = 0;
    for i in 0..n
        invariant
            n == p@.len(),
            cap <= 65535,
            all_digits(p@.take(i as int)),
            v == digits_value(p@.take(i as int)),
            v <= cap,
    {
        let c = p[i];
        assert(p@.take(i + 1).drop_last() =~= p@.take(i as int));
        if !('0' <= c && c <= '9') {
            assert(!is_digit(p@[i as int]));
            return false;
        }
        let d = (c as u32) - ('0' as u32);
        let nv = v * 10 + d;
        assert(nv == digits_value(p@.take(i + 1)));
        assert(all_digits(p@.take(i + 1)));
        if nv > cap {
            proof {
                if all_digits(p@) {
                    lemma_digits_prefix_le(p@, i + 1);
                }
            }
            return false;
        }
        v = nv;
    }
    assert(p@.take(n as int) =~= p@);
    true
}

/// Whether `p` is text that `str::parse::<u8>` accepts.
pub fn is_u8_text(p: &[char]) -> (r: bool)
    ensures
        r == u8_text(p@),
{
    if p.len() > 0 && p[0] == '+' {
        let d = slice_of(p, 1, p.len());
        assert(d@ =~= p@.drop_first());
        is_decimal_at_most(&d, 255)
    } else {
        is_decimal_at_most(p, 255)
    }
}

/// A hexadecimal digit of either case.
pub open spec fn is_hex(c: char) -> bool {
    ||| ('0' <= c && c <= '9')
    ||| ('a' <= c && c <= 'f')
    ||| ('A' <= c && c <= 'F')
}

/// One group of an IPv6 address: one to four hexadecimal digits.
pub open spec fn h16(g: Seq<char>) -> bool {
    1 <= g.len() <= 4 && forall|i: int| 0 <= i < g.len() ==> is_hex(#[trigger] g[i])
}

fn is_h16(g: &[char]) -> (r: bool)
    ensures
        r == h16(g@),
{
    let n = g.len();
    if n < 1 || n > 4 {
        return false;
    }
    for i in 0..n
        invariant
            n == g@.len(),
            forall|j: int| 0 <= j < i ==> is_hex(#[trigger] g@[j]),
    {
        let c = g[i];
        if !(('0' <= c && c <= '9') || ('a' <= c && c <= 'f') || ('A' <= c && c <= 'F')) {
            assert(!is_hex(g@[i as int]));
            return false;
        }
    }
    true
}

// ---------------------------------------------------------------------------
// Address grammars
// ---------------------------------------------------------------------------

/// The dotted form that `validate_ipv4` accepts: four dot-separated parts,
/// each text that `str::parse::<u8>` accepts.
pub open spec fn ipv4_text(s: Seq<char>) -> bool {
    let parts = split_on(s, '.');
    parts.len() == 4 && forall|i: int| 0 <= i < 4 ==> u8_text(#[trigger] parts[i])
}

/// One octet of an IPv4 address as the standard library's address parser
/// reads it: one to three digits, at most 255, no leading zero.
pub open spec fn std_octet(p: Seq<char>) -> bool {
    &&& 1 <= p.len() <= 3
    &&& decimal_at_most(p, 255)
    &&& (p.len() == 1 || p[0] != '0')
}

/// The IPv4 text that `Ipv4Addr::from_str` accepts.
pub open spec fn std_ipv4(s: Seq<char>) -> bool {
    let parts = split_on(s, '.');
    parts.len() == 4 && forall|i: int| 0 <= i < 4 ==> std_octet(#[trigger] parts[i])
}

/// A colon-separated list of IPv6 groups, of which only the last may be an
/// embedded IPv4 address; the empty text is the empty list.
pub open spec fn groups_ok(s: Seq<char>) -> bool {
    s.len() == 0 || {
        let p = split_on(s, ':');
        &&& forall|i: int| 0 <= i < p.len() - 1 ==> h16(#[trigger] p[i])
        &&& (h16(p.last()) || std_ipv4(p.last()))
    }
}

/// The number of 16-bit slots a group list fills (an embedded IPv4 address
/// fills two).
pub open spec fn groups_slots(s: Seq<char>) -> int {
    if s.len() == 0 {
        0
    } else {
        let p = split_on(s, ':');
        if h16(p.last()) {
            p.len() as int
        } else {
            p.len() + 1int
        }
    }
}

/// The group list ends with an embedded IPv4 address.
pub open spec fn groups_end_v4(s: Seq<char>) -> bool {
    s.len() > 0 && !h16(split_on(s, ':').last())
}

/// `s` holds `"::"` at position `j`.
pub open spec fn dcolon_at(s: Seq<char>, j: int) -> bool {
    s[j] == ':' && s[j + 1] == ':'
}

/// Position of the first `"::"` in `s`, or -1.
pub open spec fn find_dcolon(s: Seq<char>) -> int
    decreases s.len(),
{
    if s.len() < 2 {
        -1
    } else if s[0] == ':' && s[1] == ':' {
        0
    } else {
        let r = find_dcolon(s.drop_first());
        if r < 0 {
            -1
        } else {
            r + 1
        }
    }
}

/// The IPv6 text that `Ipv6Addr::from_str` accepts: eight slots of groups,
/// or groups before and after one `"::"` that stands for at least one zero
/// group; an embedded IPv4 address only at the very end.
pub open spec fn std_ipv6(s: Seq<char>) -> bool {
    let k = find_dcolon(s);
    if k < 0 {
        groups_ok(s) && groups_slots(s) == 8
    } else {
        let h = s.subrange(0, k);
        let t = s.subrange(k + 2, s.len() as int);
        &&& groups_ok(h)
        &&& !groups_end_v4(h)
        &&& groups_slots(h) <= 7
        &&& groups_ok(t)
        &&& groups_slots(t) <= 7 - groups_slots(h)
    }
}

/// The text that `IpAddr::from_str` accepts.
pub open spec fn std_ip(s: Seq<char>) -> bool {
    std_ipv4(s) || std_ipv6(s)
}

fn is_std_octet(p: &[char]) -> (r: bool)
    ensures
        r == std_octet(p@),
{
    let n = p.len();
    if n < 1 || n > 3 {
        return false;
    }
    if n > 1 && p[0] == '0' {
        return false;
    }
    is_decimal_at_most(p, 255)
}

/// Whether `v` is IPv4 text that `Ipv4Addr::from_str` accepts.
pub fn is_std_ipv4(v: &[char]) -> (r: bool)
    ensures
        r == std_ipv4(v@),
{
    let parts = split(v, '.');
    if parts.len() != 4 {
        return false;
    }
    for i in 0..4
        invariant
            parts@.len() == 4,
            parts.views() == split_on(v@, '.'),
            forall|j: int| 0 <= j < i ==> std_octet(#[trigger] split_on(v@, '.')[j]),
    {
        assert(parts@[i as int]@ == split_on(v@, '.')[i as int]);
        if !is_std_octet(&parts[i]) {
            return false;
        }
    }
    true
}

/// Whether `v` is a group list of at most eight slots; when it is, its slot
/// count and whether it ends with an embedded IPv4 address.
fn group_list(v: &[char]) -> (r: (bool, usize, bool))
    ensures
        r.0 == (groups_ok(v@) && groups_slots(v@) <= 8),
        r.0 ==> r.1 == groups_slots(v@) && r.2 == groups_end_v4(v@),
{
    if v.len() == 0 {
        return (true, 0, false);
    }
    let p = split(v, ':');
    proof {
        lemma_split_nonempty(v@, ':');
    }
    let n = p.len();
    let ghost sp = split_on(v@, ':');
    if n > 8 {
        return (false, 0, false);
    }
    for i in 0..n - 1
        invariant
            n == p@.len(),
            n >= 1,
            p.views() == sp,
            sp == split_on(v@, ':'),
            forall|j: int| 0 <= j < i ==> h16(#[trigger] sp[j]),
    {
        assert(p@[i as int]@ == sp[i as int]);
        if !is_h16(&p[i]) {
            assert(!h16(sp[i as int]));
            assert(sp.len() == n);
            assert(!groups_ok(v@));
            return (false, 0, false);
        }
    }
    assert(p@[n - 1]@ == sp.last());
    if is_h16(&p[n - 1]) {
        (true, n, false)
    } else if is_std_ipv4(&p[n - 1]) {
        if n == 8 {
            return (false, 0, false);
        }
        (true, n + 1, true)
    } else {
        (false, 0, false)
    }
}

pub proof fn lemma_find_dcolon(s: Seq<char>, i: int)
    requires
        0 <= i,
        i + 1 <= s.len(),
        forall|j: int| 0 <= j < i ==> !dcolon_at(s, j),
    ensures
        i + 1 < s.len() && s[i] == ':' && s[i + 1] == ':' ==> find_dcolon(s) == i,
        i + 1 == s.len() ==> find_dcolon(s) == -1,
    decreases i,
{
    if i > 0 {
        let t = s.drop_first();
        assert forall|j: int| 0 <= j < i - 1 implies !dcolon_at(t, j) by {
            assert(!dcolon_at(s, j + 1));
        }
        lemma_find_dcolon(t, i - 1);
        assert(!dcolon_at(s, 0));
    }
}

fn find_double_colon(v: &[char]) -> (r: Option<usize>)
    ensures
        match r {
            Some(k) => find_dcolon(v@) == k as int && k + 2 <= v@.len(),
            None => find_dcolon(v@) == -1,
        },
{
    let n = v.len();
    if n < 2 {
        return None;
    }
    for i in 0..n - 1
        invariant
            n == v@.len(),
            n >= 2,
            forall|j: int| 0 <= j < i ==> !dcolon_at(v@, j),
    {
        assert(dcolon_at(v@, i as int) == (v@[i as int] == ':' && v@[i + 1] == ':'));
        if v[i] == ':' && v[i + 1] == ':' {
            proof {
                lemma_find_dcolon(v@, i as int);
            }
            return Some(i);
        }
    }
    proof {
        lemma_find_dcolon(v@, n - 1);
    }
    None
}

/// Whether `v` is IPv6 text that `Ipv6Addr::from_str` accepts.
pub fn is_std_ipv6(v: &[char]) -> (r: bool)
    ensures
        r == std_ipv6(v@),
{
    match find_double_colon(v) {
        None => {
            let (ok, slots, _) = group_list(v);
            ok && slots == 8
        },
        Some(k) => {
            let n = v.len();
            let h = slice_of(v, 0, k);
            let t = slice_of(v, k + 2, n);
            let (hok, hs, hv4) = group_list(&h);
            if !hok || hv4 || hs > 7 {
                return false;
            }
            let (tok, ts, _) = group_list(&t);
            tok && ts <= 7 - hs
        },
    }
}

// ---------------------------------------------------------------------------
// Validators
// ---------------------------------------------------------------------------

/// Whether every one of the four dot-separated parts is text that `str::parse::<u8>` accepts.
fn is_ipv4_text(v: &[char]) -> (r: bool)
    ensures
        r == ipv4_text(v@),
{
    let parts = split(v, '.');
    if parts.len() != 4 {
        return false;
    }
    for i in 0..4
        invariant
            parts@.len() == 4,
            parts.views() == split_on(v@, '.'),
            forall|j: int| 0 <= j < i ==> u8_text(#[trigger] split_on(v@, '.')[j]),
    {
        assert(parts@[i as int]@ == split_on(v@, '.')[i as int]);
        if parts[i].len() == 0 || !is_u8_text(&parts[i]) {
            return false;
        }
    }
    true
}

/// What [`validate_ipv4`] finds wrong with `s`, if anything.
pub open spec fn ipv4_check(s: Seq<char>) -> Option<Seq<char>> {
    if ipv4_text(s) {
        None
    } else {
        Some("Invalid IPv4 address: "@ + s)
    }
}

/// What [`validate_ipv6`] finds wrong with `s`, if anything.
pub open spec fn ipv6_check(s: Seq<char>) -> Option<Seq<char>> {
    if std_ipv6(s) {
        None
    } else {
        Some("Invalid IPv6 address: "@ + s)
    }
}

/// What [`validate_profile_id`] finds wrong with `s`, if anything.
pub open spec fn profile_id_check(s: Seq<char>) -> Option<Seq<char>> {
    if s.len() == 0 || encode_utf8(s).len() > 128 {
        Some("Profile id must be 1-128 chars"@)
    } else if !(forall|i: int| 0 <= i < s.len() ==> id_char(#[trigger] s[i])) {
        Some("Profile id may only contain alphanumeric, dash, underscore"@)
    } else {
        None
    }
}

/// What [`validate_profile_name`] finds wrong with `s`, if anything.
pub open spec fn profile_name_check(s: Seq<char>) -> Option<Seq<char>> {
    let t = trim(s);
    if t.len() == 0 || encode_utf8(t).len() > 64 {
        Some("Profile name must be 1-64 chars"@)
    } else if has_break_or_nul(t) {
        Some("Profile name contains invalid characters"@)
    } else {
        None
    }
}

/// What [`validate_doh_url`] finds wrong with `s`, if anything.
pub open spec fn doh_url_check(s: Seq<char>) -> Option<Seq<char>> {
    if s.len() == 0 {
        Some("DoH URL cannot be empty"@)
    } else if !starts_with(s, "https://"@) {
        Some("DoH URL must use https://"@)
    } else if encode_utf8(s).len() > 512 {
        Some("DoH URL too long"@)
    } else if has_break_or_nul(s) {
        Some("DoH URL contains invalid characters"@)
    } else {
        None
    }
}

/// What [`validate_dot_host`] finds wrong with `s`, if anything.
pub open spec fn dot_host_check(s: Seq<char>) -> Option<Seq<char>> {
    if s.len() == 0 {
        Some("DoT host cannot be empty"@)
    } else if encode_utf8(s).len() > 253 {
        Some("DoT host too long"@)
    } else if has_break_or_nul(s) {
        Some("DoT host contains invalid characters"@)
    } else {
        None
    }
}

/// Validate an IPv4 address string.
pub fn validate_ipv4(addr: &str) -> (r: AppResult<()>)
    ensures
        outcome(r, ipv4_check(addr@)),
        r is Ok <==> ipv4_text(addr@),
        r is Err ==> is_validation(r, "Invalid IPv4 address: "@ + addr@),
{
    let v = chars_of(addr);
    if is_ipv4_text(&v) {
        Ok(())
    } else {
        Err(AppError::Validation(concat("Invalid IPv4 address: ", addr)))
    }
}

/// Validate an IPv6 address string.
pub fn validate_ipv6(addr: &str) -> (r: AppResult<()>)
    ensures
        outcome(r, ipv6_check(addr@)),
        r is Ok <==> std_ipv6(addr@),
        r is Err ==> is_validation(r, "Invalid IPv6 address: "@ + addr@),
{
    let v = chars_of(addr);
    if is_std_ipv6(&v) {
        Ok(())
    } else {
        Err(AppError::Validation(concat("Invalid IPv6 address: ", addr)))
    }
}

/// Validate either IPv4 or IPv6.
pub fn validate_ip(addr: &str) -> (r: AppResult<()>)
    ensures
        r is Ok <==> std_ip(addr@),
        r is Err ==> is_validation(r, "Invalid IP address: "@ + addr@),
{
    let v = chars_of(addr);
    if is_std_ipv4(&v) || is_std_ipv6(&v) {
        Ok(())
    } else {
        Err(AppError::Validation(concat("Invalid IP address: ", addr)))
    }
}

/// A character allowed in a profile id.
pub open spec fn id_char(c: char) -> bool {
    ||| ('a' <= c && c <= 'z')
    ||| ('A' <= c && c <= 'Z')
    ||| ('0' <= c && c <= '9')
    ||| c == '-'
    ||| c == '_'
}

/// Validate a profile id (alphanumeric, dash, underscore).
pub fn validate_profile_id(id: &str) -> (r: AppResult<()>)
    ensures
        outcome(r, profile_id_check(id@)),
        id@.len() == 0 || id.spec_bytes().len() > 128 ==> is_validation(
            r,
            "Profile id must be 1-128 chars"@,
        ),
        !(id@.len() == 0 || id.spec_bytes().len() > 128) && !(forall|i: int|
            0 <= i < id@.len() ==> id_char(#[trigger] id@[i])) ==> is_validation(
            r,
            "Profile id may only contain alphanumeric, dash, underscore"@,
        ),
        r is Ok <==> (id@.len() > 0 && id.spec_bytes().len() <= 128 && forall|i: int|
            0 <= i < id@.len() ==> id_char(#[trigger] id@[i])),
{
    let v = chars_of(id);
    if v.len() == 0 || utf8_longer_than(&v, 128) {
        return Err(AppError::validation("Profile id must be 1-128 chars"));
    }
    let n = v.len();
    for i in 0..n
        invariant
            n == v@.len(),
            v@ == id@,
            v@.len() > 0 && encode_utf8(v@).len() <= 128,
            forall|j: int| 0 <= j < i ==> id_char(#[trigger] v@[j]),
    {
        let c = v[i];
        if !(('a' <= c && c <= 'z') || ('A' <= c && c <= 'Z') || ('0' <= c && c <= '9') || c
            == '-' || c == '_') {
            assert(!id_char(id@[i as int]));
            return Err(
                AppError::validation("Profile id may only contain alphanumeric, dash, underscore"),
            );
        }
    }
    Ok(())
}

/// Number of bytes in the UTF-8 encoding of `c`.
pub open spec fn char_width(c: char) -> nat {
    if (c as u32) <= 0x7F {
        1
    } else if (c as u32) <= 0x7FF {
        2
    } else if (c as u32) <= 0xFFFF {
        3
    } else {
        4
    }
}

pub proof fn lemma_encode_push(a: Seq<char>, c: char)
    ensures
        encode_utf8(a.push(c)).len() == encode_utf8(a).len() + char_width(c),
    decreases a.len(),
{
    if a.len() == 0 {
        assert(a.push(c).drop_first() =~= Seq::<char>::empty());
        assert(encode_utf8(Seq::<char>::empty()).len() == 0);
    } else {
        assert(a.push(c).drop_first() =~= a.drop_first().push(c));
        lemma_encode_push(a.drop_first(), c);
    }
    assert(is_scalar(c as u32));
}

/// Whether the UTF-8 encoding of `v` is longer than `limit` bytes.
pub fn utf8_longer_than(v: &[char], limit: usize) -> (r: bool)
    ensures
        r == (encode_utf8(v@).len() > limit),
{
    let n = v.len();
    let mut total: usize = 0;
    for i in 0..n
        invariant
            n == v@.len(),
            total == encode_utf8(v@.take(i as int)).len(),
            total <= limit,
    {
        let u = v[i] as u32;
        let w: usize = if u <= 0x7F {
            1
        } else if u <= 0x7FF {
            2
        } else if u <= 0xFFFF {
            3
        } else {
            4
        };
        proof {
            assert(v@.take(i + 1) =~= v@.take(i as int).push(v@[i as int]));
            lemma_encode_push(v@.take(i as int), v@[i as int]);
        }
        if w > limit - total {
            proof {
                lemma_encode_prefix_le(v@, i + 1);
            }
            return true;
        }
        total = total + w;
    }
    assert(v@.take(n as int) =~= v@);
    false
}

pub proof fn lemma_encode_prefix_le(s: Seq<char>, j: int)
    requires
        0 <= j <= s.len(),
    ensures
        encode_utf8(s.take(j)).len() <= encode_utf8(s).len(),
    decreases s.len() - j,
{
    if j < s.len() {
        lemma_encode_prefix_le(s, j + 1);
        assert(s.take(j + 1) =~= s.take(j).push(s[j]));
        lemma_encode_push(s.take(j), s[j]);
    } else {
        assert(s.take(j) =~= s);
    }
}

/// `v` holds a line break or a NUL.
pub open spec fn has_break_or_nul(v: Seq<char>) -> bool {
    v.contains('\n') || v.contains('\r') || v.contains('\u{0}')
}

fn break_or_nul(v: &[char]) -> (r: bool)
    ensures
        r == has_break_or_nul(v@),
{
    has_char(v, '\n') || has_char(v, '\r') || has_char(v, '\u{0}')
}

/// Validate a human-readable profile name.
pub fn validate_profile_name(name: &str) -> (r: AppResult<()>)
    ensures
        outcome(r, profile_name_check(name@)),
        ({
            let t = trim(name@);
            &&& (t.len() == 0 || encode_utf8(t).len() > 64) ==> is_validation(
                r,
                "Profile name must be 1-64 chars"@,
            )
            &&& !(t.len() == 0 || encode_utf8(t).len() > 64) && has_break_or_nul(t)
                ==> is_validation(r, "Profile name contains invalid characters"@)
            &&& r is Ok <==> (t.len() > 0 && encode_utf8(t).len() <= 64 && !has_break_or_nul(t))
        }),
{
    let v = chars_of(name);
    let t = trimmed(&v);
    if t.len() == 0 || utf8_longer_than(&t, 64) {
        return Err(AppError::validation("Profile name must be 1-64 chars"));
    }
    if break_or_nul(&t) {
        return Err(AppError::validation("Profile name contains invalid characters"));
    }
    Ok(())
}

/// Validate a DoH URL (https only).
pub fn validate_doh_url(url: &str) -> (r: AppResult<()>)
    ensures
        outcome(r, doh_url_check(url@)),
        url@.len() == 0 ==> is_validation(r, "DoH URL cannot be empty"@),
        url@.len() > 0 && !starts_with(url@, "https://"@) ==> is_validation(
            r,
            "DoH URL must use https://"@,
        ),
        url@.len() > 0 && starts_with(url@, "https://"@) && url.spec_bytes().len() > 512
            ==> is_validation(r, "DoH URL too long"@),
        url@.len() > 0 && starts_with(url@, "https://"@) && url.spec_bytes().len() <= 512
            && has_break_or_nul(url@) ==> is_validation(
            r,
            "DoH URL contains invalid characters"@,
        ),
        r is Ok <==> (starts_with(url@, "https://"@) && url.spec_bytes().len() <= 512
            && !has_break_or_nul(url@)),
{
    proof {
        reveal_strlit("https://");
    }
    if url.is_empty() {
        return Err(AppError::validation("DoH URL cannot be empty"));
    }
    let v = chars_of(url);
    let p = chars_of("https://");
    if !has_prefix(&v, &p) {
        return Err(AppError::validation("DoH URL must use https://"));
    }
    if utf8_longer_than(&v, 512) {
        return Err(AppError::validation("DoH URL too long"));
    }
    if break_or_nul(&v) {
        return Err(AppError::validation("DoH URL contains invalid characters"));
    }
    Ok(())
}

/// Validate a DoT hostname.
pub fn validate_dot_host(host: &str) -> (r: AppResult<()>)
    ensures
        outcome(r, dot_host_check(host@)),
        host@.len() == 0 ==> is_validation(r, "DoT host cannot be empty"@),
        host@.len() > 0 && host.spec_bytes().len() > 253 ==> is_validation(
            r,
            "DoT host too long"@,
        ),
        host@.len() > 0 && host.spec_bytes().len() <= 253 && has_break_or_nul(host@)
            ==> is_validation(r, "DoT host contains invalid characters"@),
        r is Ok <==> (host@.len() > 0 && host.spec_bytes().len() <= 253 && !has_break_or_nul(
            host@,
        )),
{
    let v = chars_of(host);
    if v.len() == 0 {
        return Err(AppError::validation("DoT host cannot be empty"));
    }
    if utf8_longer_than(&v, 253) {
        return Err(AppError::validation("DoT host too long"));
    }
    if break_or_nul(&v) {
        return Err(AppError::validation("DoT host contains invalid characters"));
    }
    Ok(())
}

/// The hosts that [`validate_host`] accepts.
pub open spec fn host_ok(host: &str) -> bool {
    host@.len() > 0 && host.spec_bytes().len() <= 253 && !has_break_or_nul(host@)
}

/// Validate a hostname used for diagnostics.
pub fn validate_host(host: &str) -> (r: AppResult<()>)
    ensures
        r is Ok <==> host_ok(host),
        r is Err ==> is_validation(r, "Invalid host"@),
{
    let v = chars_of(host);
    if v.len() == 0 || utf8_longer_than(&v, 253) {
        return Err(AppError::validation("Invalid host"));
    }
    if break_or_nul(&v) {
        return Err(AppError::validation("Invalid host"));
    }
    Ok(())
}

// ---------------------------------------------------------------------------
// Output sanitising
// ---------------------------------------------------------------------------

/// The Unicode control characters (general category Cc), as
/// `char::is_control` reports them.
pub open spec fn is_control(c: char) -> bool {
    c <= '\u{1F}' || ('\u{7F}' <= c && c <= '\u{9F}')
}

/// NUL, BEL and backspace, which sanitising drops.
pub open spec fn is_dropped(c: char) -> bool {
    c == '\u{0}' || c == '\u{7}' || c == '\u{8}'
}

/// NUL, BEL and backspace dropped, every other control character replaced by
/// a space.
pub open spec fn scrub(s: Seq<char>) -> Seq<char>
    decreases s.len(),
{
    if s.len() == 0 {
        Seq::empty()
    } else {
        let r = scrub(s.drop_last());
        let c = s.last();
        if is_dropped(c) {
            r
        } else if is_control(c) {
            r.push(' ')
        } else {
            r.push(c)
        }
    }
}

/// What [`sanitize_output`] makes of `s`.
pub open spec fn sanitized(s: Seq<char>) -> Seq<char> {
    trim(scrub(s))
}

/// No character of `s` is a control character.
pub open spec fn control_free(s: Seq<char>) -> bool {
    forall|i: int| 0 <= i < s.len() ==> !is_control(#[trigger] s[i])
}

proof fn lemma_scrub_control_free(s: Seq<char>)
    ensures
        control_free(scrub(s)),
    decreases s.len(),
{
    if s.len() > 0 {
        lemma_scrub_control_free(s.drop_last());
    }
}

proof fn lemma_scrub_keeps_control_free(s: Seq<char>)
    requires
        control_free(s),
    ensures
        scrub(s) == s,
    decreases s.len(),
{
    if s.len() > 0 {
        assert forall|i: int| 0 <= i < s.drop_last().len() implies !is_control(
            #[trigger] s.drop_last()[i],
        ) by {
            assert(s.drop_last()[i] == s[i]);
        }
        lemma_scrub_keeps_control_free(s.drop_last());
        assert(!is_control(s[s.len() - 1]));
        assert(s.drop_last().push(s.last()) =~= s);
    } else {
        assert(s =~= Seq::empty());
    }
}

proof fn lemma_subrange_control_free(s: Seq<char>, a: int, b: int)
    requires
        control_free(s),
        0 <= a <= b <= s.len(),
    ensures
        control_free(s.subrange(a, b)),
{
    assert forall|i: int| 0 <= i < b - a implies !is_control(#[trigger] s.subrange(a, b)[i]) by {
        assert(s.subrange(a, b)[i] == s[a + i]);
    }
}

/// Sanitising is idempotent: sanitised output holds no control character and
/// no surrounding whitespace, so sanitising it again changes nothing.
pub proof fn law_sanitize_idempotent(s: Seq<char>)
    ensures
        sanitized(sanitized(s)) == sanitized(s),
{
    let c = scrub(s);
    lemma_scrub_control_free(s);
    lemma_trim_start_suffix(c);
    let y = trim_start(c);
    lemma_subrange_control_free(c, c.len() - y.len(), c.len() as int);
    lemma_trim_end_prefix(y);
    lemma_subrange_control_free(y, 0, trim_end(y).len() as int);
    lemma_scrub_keeps_control_free(trim(c));
    lemma_trim_idempotent(c);
}

fn scrub_chars(v: &[char]) -> (r: Vec<char>)
    ensures
        r@ == scrub(v@),
{
    let n = v.len();
    let mut r: Vec<char> = Vec::new();
    for i in 0..n
        invariant
            n == v@.len(),
            r@ == scrub(v@.take(i as int)),
    {
        assert(v@.take(i + 1).drop_last() =~= v@.take(i as int));
        let c = v[i];
        if c == '\u{0}' || c == '\u{7}' || c == '\u{8}' {
        } else if c <= '\u{1F}' || ('\u{7F}' <= c && c <= '\u{9F}') {
            r.push(' ');
        } else {
            r.push(c);
        }
    }
    assert(v@.take(n as int) =~= v@);
    r
}

/// Sanitize a generic string for safe display / logging.
pub fn sanitize_output(s: &str) -> (r: String)
    ensures
        r@ == sanitized(s@),
{
    let v = chars_of(s);
    let c = scrub_chars(&v);
    let t = trimmed(&c);
    string_of(&t)
}

/// Truncate output to a maximum length for safety.
pub fn truncate_output(s: &str, max: usize) -> (r: String)
    requires
        s.spec_bytes().len() <= max || is_char_boundary(s.spec_bytes(), max as int),
    ensures
        s.spec_bytes().len() <= max ==> r@ == s@,
        s.spec_bytes().len() > max ==> r@ == decode_utf8(s.spec_bytes().subrange(0, max as int))
            + "...[truncated]"@,
{
    let v = chars_of(s);
    if !utf8_longer_than(&v, max) {
        s.to_owned()
    } else {
        let (head, _) = s.split_at(max);
        proof {
            encode_utf8_decode_utf8(head@);
        }
        concat(head, "...[truncated]")
    }
}

} // verus!
