//! Diagnostics: the DNS-leak verdict on the active adapters' resolvers, the
//! resolver and adapter a check uses, ping and lookup commands and how their
//! output is read, and the steps of the DNSSEC probe. Timing the runs and
//! averaging latencies happen outside the library.
use vstd::prelude::*;

use crate::command_runner::{combined_text, RunOutput};
use crate::dns::trace::{float_text, is_float_token};
use crate::dns::windows::powershell_command;
use crate::errors::{error_text, AppError, AppResult};
use crate::models::{adapter_views, AdapterView, NetworkAdapter, OsKind};
use crate::text::{
    chars_of, concat, contains, has_infix, has_prefix, lines, lines_of, lowercase, rfind,
    rfind_char, slice_of, split, split_on, starts_with, string_of, string_vec, string_views,
    opt_view, to_lowercase, trim, trimmed, NestedView,
};
use crate::validation::{
    all_digits, digits_value, host_ok, is_std_ipv4, is_std_ipv6, is_u8_text, sanitize_output,
    sanitized, std_ip, std_ipv4, u8_text, u8_value, validate_host,
};

verus! {

// ---------------------------------------------------------------------------
// Private resolvers and the leak verdict
// ---------------------------------------------------------------------------

/// The values of the pieces that read as `u8`, in order; the others are
/// skipped.
pub open spec fn parsed_octets(p: Seq<Seq<char>>) -> Seq<int>
    decreases p.len(),
{
    if p.len() == 0 {
        Seq::empty()
    } else {
        let r = parsed_octets(p.drop_last());
        if u8_text(p.last()) {
            r.push(u8_value(p.last()))
        } else {
            r
        }
    }
}

/// Whether an IPv4 string is in a private, loopback or link-local range,
/// which usually means the local router or ISP answers DNS: exactly four of
/// its dot-separated pieces read as `u8` and they start 10, 127, 192.168,
/// 172.16-31 or 169.254.
pub open spec fn private_ipv4(ip: Seq<char>) -> bool {
    let o = parsed_octets(split_on(ip, '.'));
    &&& o.len() == 4
    &&& {
        ||| o[0] == 10
        ||| o[0] == 127
        ||| o[0] == 192 && o[1] == 168
        ||| o[0] == 172 && 16 <= o[1] <= 31
        ||| o[0] == 169 && o[1] == 254
    }
}

fn u8_of(p: &[char]) -> (r: Option<u8>)
    ensures
        match r {
            Some(v) => u8_text(p@) && v == u8_value(p@),
            None => !u8_text(p@),
        },
{
    if !is_u8_text(p) {
        return None;
    }
    let start: usize = if p[0] == '+' {
        1
    } else {
        0
    };
    let ghost d = p@.subrange(start as int, p@.len() as int);
    assert(start == 1 ==> d =~= p@.drop_first());
    assert(start == 0 ==> d =~= p@);
    assert(digits_value(d) <= 255 && all_digits(d));
    let n = p.len();
    let mut v: u32 = 0;
    let mut i = start;
    while i < n
        invariant
            start <= i <= n == p@.len(),
            d == p@.subrange(start as int, n as int),
            all_digits(d),
            digits_value(d) <= 255,
            v == digits_value(d.take(i - start)),
            v <= 255,
        decreases n - i,
    {
        assert(d.take(i - start + 1).drop_last() =~= d.take(i - start));
        assert(d[i - start] == p@[i as int]);
        proof {
            crate::validation::lemma_digits_prefix_le(d, i - start + 1);
        }
        v = v * 10 + ((p[i] as u32) - ('0' as u32));
        i += 1;
    }
    assert(d.take(n - start) =~= d);
    Some(v as u8)
}

/// Determine whether an IPv4 string is in a private, loopback or link-local
/// range.
pub fn is_private_ipv4(ip: &str) -> (r: bool)
    ensures
        r == private_ipv4(ip@),
{
    let v = crate::text::chars_of(ip);
    let pieces = split(&v, '.');
    let n = pieces.len();
    let mut octets: Vec<u8> = Vec::new();
    for i in 0..n
        invariant
            n == pieces@.len(),
            pieces.views() == split_on(ip@, '.'),
            Seq::new(octets@.len(), |k: int| octets@[k] as int) == parsed_octets(pieces.views().take(i as int)),
    {
        let ghost before = octets@;
        assert(pieces.views().take(i + 1).drop_last() =~= pieces.views().take(i as int));
        assert(pieces.views().take(i + 1).last() == pieces@[i as int]@);
        match u8_of(&pieces[i]) {
            Some(o) => {
                octets.push(o);
                assert(Seq::new(octets@.len(), |k: int| octets@[k] as int) =~= Seq::new(before.len(), |k: int| before[k] as int).push(o as int));
            },
            None => {},
        }
    }
    assert(pieces.views().take(n as int) =~= pieces.views());
    if octets.len() != 4 {
        return false;
    }
    let a = octets[0];
    let b = octets[1];
    assert(Seq::new(octets@.len(), |k: int| octets@[k] as int)[0] == a as int);
    assert(Seq::new(octets@.len(), |k: int| octets@[k] as int)[1] == b as int);
    a == 10 || a == 127 || (a == 192 && b == 168) || (a == 172 && 16 <= b && b <= 31) || (a == 169
        && b == 254)
}

/// An active adapter that leaks queries: it has no IPv4 resolver, or one of
/// them is private.
pub open spec fn exposed(a: AdapterView) -> bool {
    a.ipv4_dns.len() == 0 || exists|j: int| 0 <= j < a.ipv4_dns.len() && private_ipv4(#[trigger] a.ipv4_dns[j])
}

/// The leak verdict on a set of adapters: none when no adapter is up, else
/// whether no adapter that is up is exposed.
pub open spec fn leak_verdict(a: Seq<AdapterView>) -> Option<bool> {
    if !(exists|i: int| 0 <= i < a.len() && (#[trigger] a[i]).is_up) {
        None
    } else {
        Some(!exists|i: int| 0 <= i < a.len() && (#[trigger] a[i]).is_up && exposed(a[i]))
    }
}

fn is_exposed(a: &NetworkAdapter) -> (r: bool)
    ensures
        r == exposed(a@),
{
    let n = a.ipv4_dns.len();
    if n == 0 {
        return true;
    }
    for j in 0..n
        invariant
            n == a.ipv4_dns@.len(),
            forall|k: int| 0 <= k < j ==> !private_ipv4(#[trigger] a@.ipv4_dns[k]),
    {
        assert(a@.ipv4_dns[j as int] == a.ipv4_dns@[j as int]@);
        if is_private_ipv4(a.ipv4_dns[j].as_str()) {
            return true;
        }
    }
    false
}

/// Real DNS-leak check based on the active adapters' configured resolvers:
/// `Some(true)` when every active adapter has explicit public DNS servers,
/// `Some(false)` when any active adapter relies on a private or router
/// resolver or has none configured (queries can leak to the ISP), `None`
/// when no adapter is up.
pub fn check_leak(adapters: &[NetworkAdapter]) -> (r: Option<bool>)
    ensures
        r == leak_verdict(adapter_views(adapters@)),
{
    let n = adapters.len();
    let ghost av = adapter_views(adapters@);
    let mut any_up = false;
    for i in 0..n
        invariant
            n == adapters@.len(),
            av == adapter_views(adapters@),
            any_up <==> exists|k: int| 0 <= k < i && (#[trigger] av[k]).is_up,
            forall|k: int| 0 <= k < i ==> !((#[trigger] av[k]).is_up && exposed(av[k])),
    {
        assert(av[i as int] == adapters@[i as int]@);
        if adapters[i].is_up {
            any_up = true;
            if is_exposed(&adapters[i]) {
                return Some(false);
            }
        }
    }
    if any_up {
        Some(true)
    } else {
        None
    }
}

/// The verdict rests on the adapters that are up alone: an adapter that is
/// down, added anywhere, changes nothing.
pub proof fn law_leak_ignores_down_adapters(a: Seq<AdapterView>, i: int, x: AdapterView)
    requires
        0 <= i <= a.len(),
        !x.is_up,
    ensures
        leak_verdict(a.insert(i, x)) == leak_verdict(a),
{
    let b = a.insert(i, x);
    assert forall|j: int| 0 <= j < a.len() implies #[trigger] a[j] == b[if j < i { j } else { j + 1 }] by {}
    assert forall|j: int| 0 <= j < b.len() && j != i implies #[trigger] b[j] == a[if j < i { j } else { j - 1 }] by {}
    if exists|j: int| 0 <= j < b.len() && (#[trigger] b[j]).is_up {
        let j = choose|j: int| 0 <= j < b.len() && (#[trigger] b[j]).is_up;
        let k = if j < i { j } else { j - 1 };
        assert(a[k].is_up);
    }
    if exists|j: int| 0 <= j < a.len() && (#[trigger] a[j]).is_up {
        let j = choose|j: int| 0 <= j < a.len() && (#[trigger] a[j]).is_up;
        let k = if j < i { j } else { j + 1 };
        assert(b[k].is_up);
    }
    if exists|j: int| 0 <= j < b.len() && (#[trigger] b[j]).is_up && exposed(b[j]) {
        let j = choose|j: int| 0 <= j < b.len() && (#[trigger] b[j]).is_up && exposed(b[j]);
        let k = if j < i { j } else { j - 1 };
        assert(a[k].is_up && exposed(a[k]));
    }
    if exists|j: int| 0 <= j < a.len() && (#[trigger] a[j]).is_up && exposed(a[j]) {
        let j = choose|j: int| 0 <= j < a.len() && (#[trigger] a[j]).is_up && exposed(a[j]);
        let k = if j < i { j } else { j + 1 };
        assert(b[k].is_up && exposed(b[k]));
    }
}

// ---------------------------------------------------------------------------
// Resolver and adapter of a check
// ---------------------------------------------------------------------------

/// Position of the first adapter with an IPv4 resolver that is also up when
/// `up`, or -1.
pub open spec fn first_with_resolver(a: Seq<AdapterView>, up: bool) -> int
    decreases a.len(),
{
    if a.len() == 0 {
        -1
    } else if a[0].ipv4_dns.len() > 0 && (a[0].is_up || !up) {
        0
    } else {
        let r = first_with_resolver(a.drop_first(), up);
        if r < 0 {
            -1
        } else {
            r + 1
        }
    }
}

proof fn lemma_first_with_resolver(a: Seq<AdapterView>, up: bool, i: int)
    requires
        0 <= i <= a.len(),
        forall|j: int| 0 <= j < i ==> !((#[trigger] a[j]).ipv4_dns.len() > 0 && (a[j].is_up || !up)),
    ensures
        i < a.len() && a[i].ipv4_dns.len() > 0 && (a[i].is_up || !up) ==> first_with_resolver(a, up) == i,
        i == a.len() ==> first_with_resolver(a, up) == -1,
    decreases i,
{
    if i > 0 {
        lemma_first_with_resolver(a.drop_first(), up, i - 1);
    }
}

fn find_with_resolver(adapters: &[NetworkAdapter], up: bool) -> (r: Option<usize>)
    ensures
        match r {
            Some(k) => k < adapters@.len() && first_with_resolver(adapter_views(adapters@), up) == k
                && adapters@[k as int].ipv4_dns@.len() > 0,
            None => first_with_resolver(adapter_views(adapters@), up) == -1,
        },
{
    let n = adapters.len();
    let ghost av = adapter_views(adapters@);
    for i in 0..n
        invariant
            n == adapters@.len(),
            av == adapter_views(adapters@),
            forall|j: int| 0 <= j < i ==> !((#[trigger] av[j]).ipv4_dns.len() > 0 && (av[j].is_up || !up)),
    {
        assert(av[i as int] == adapters@[i as int]@);
        if adapters[i].ipv4_dns.len() > 0 && (adapters[i].is_up || !up) {
            proof {
                lemma_first_with_resolver(av, up, i as int);
            }
            return Some(i);
        }
    }
    proof {
        lemma_first_with_resolver(av, up, n as int);
    }
    None
}

/// The resolver in use: the first IPv4 server of the first adapter that is
/// up and has one, else of the first adapter that has one.
pub open spec fn resolver_in_use(a: Seq<AdapterView>) -> Option<Seq<char>> {
    let k = first_with_resolver(a, true);
    let j = first_with_resolver(a, false);
    if k >= 0 {
        Some(a[k].ipv4_dns[0])
    } else if j >= 0 {
        Some(a[j].ipv4_dns[0])
    } else {
        None
    }
}

/// Pick the resolver currently in use.
pub fn active_resolver(adapters: &[NetworkAdapter]) -> (r: Option<String>)
    ensures
        r.deep_view() == resolver_in_use(adapter_views(adapters@)),
{
    let k = match find_with_resolver(adapters, true) {
        Some(k) => k,
        None => match find_with_resolver(adapters, false) {
            Some(j) => j,
            None => return None,
        },
    };
    assert(adapter_views(adapters@)[k as int].ipv4_dns[0] == adapters@[k as int].ipv4_dns@[0]@);
    Some(adapters[k].ipv4_dns[0].clone())
}

/// The adapter pings are pinned to: the first adapter that is up and has an
/// IPv4 resolver, so that VPN and tunnel traffic routes correctly.
pub open spec fn pinned_adapter(a: Seq<AdapterView>) -> Option<Seq<char>> {
    let k = first_with_resolver(a, true);
    if k >= 0 {
        Some(a[k].id)
    } else {
        None
    }
}

/// Pick the adapter that the pings of a check go through.
pub fn ping_adapter(adapters: &[NetworkAdapter]) -> (r: Option<String>)
    ensures
        r.deep_view() == pinned_adapter(adapter_views(adapters@)),
{
    match find_with_resolver(adapters, true) {
        Some(k) => Some(adapters[k].id.clone()),
        None => None,
    }
}


// ---------------------------------------------------------------------------
// Ping
// ---------------------------------------------------------------------------

/// The PowerShell script that prints the first IPv4 address of the adapter
/// with the given guid.
pub open spec fn source_address_script(guid: Seq<char>) -> Seq<char> {
    "Get-NetIPAddress -InterfaceIndex ((Get-NetAdapter -InterfaceGuid '"@ + guid
        + "').ifIndex) -AddressFamily IPv4 -ErrorAction SilentlyContinue | Select-Object -First 1 -ExpandProperty IPAddress"@
}

/// The command that looks up the IPv4 address a ping through the given
/// adapter leaves from; only Windows binds pings to an adapter this way.
pub fn source_address_command(os: OsKind, adapter_id: Option<&str>) -> (r: Option<Vec<String>>)
    ensures
        (os == OsKind::Windows && adapter_id is Some) ==> (r matches Some(c) && string_views(c@) == seq![
            "powershell"@,
            "-NoProfile"@,
            "-NonInteractive"@,
            "-Command"@,
            source_address_script(adapter_id->0@),
        ]),
        !(os == OsKind::Windows && adapter_id is Some) ==> r is None,
{
    match (os, adapter_id) {
        (OsKind::Windows, Some(guid)) => {
            let a = concat("Get-NetIPAddress -InterfaceIndex ((Get-NetAdapter -InterfaceGuid '", guid);
            let script = concat(
                a.as_str(),
                "').ifIndex) -AddressFamily IPv4 -ErrorAction SilentlyContinue | Select-Object -First 1 -ExpandProperty IPAddress",
            );
            Some(powershell_command(script.as_str()))
        },
        _ => None,
    }
}

/// The address the lookup printed: its trimmed output when the lookup ran
/// and succeeded and printed something.
pub open spec fn printed_address(run: AppResult<RunOutput>) -> Option<Seq<char>> {
    match run {
        Ok(o) => if o.status == 0 && trim(o.stdout@).len() > 0 {
            Some(trim(o.stdout@))
        } else {
            None
        },
        Err(_) => None,
    }
}

/// Read the source address from the run of [`source_address_command`].
pub fn source_address(run: &AppResult<RunOutput>) -> (r: Option<String>)
    ensures
        r.deep_view() == printed_address(*run),
{
    match run {
        Ok(o) => {
            if o.success() {
                let t = trimmed(&chars_of(o.stdout.as_str()));
                if t.len() > 0 {
                    return Some(string_of(&t));
                }
            }
            None
        },
        Err(_) => None,
    }
}

/// The arguments of `ping` for four echo requests to `host`, leaving from
/// `source` when given.
pub open spec fn ping_args(os: OsKind, host: Seq<char>, source: Option<Seq<char>>) -> Seq<Seq<char>> {
    let base = if os == OsKind::Windows {
        seq!["-n"@, "4"@, "-w"@, "2000"@]
    } else {
        seq!["-c"@, "4"@, "-W"@, "2"@]
    };
    let bind = match source {
        Some(s) => if os == OsKind::Windows {
            seq!["-S"@, s]
        } else {
            seq!["-I"@, s]
        },
        None => Seq::empty(),
    };
    seq!["ping"@] + base + bind + seq![host]
}

/// The program and arguments that ping `host`.
pub fn ping_command(os: OsKind, host: &str, source: Option<&str>) -> (r: Vec<String>)
    ensures
        string_views(r@) == ping_args(os, host@, opt_view(source)),
{
    let mut r = match os {
        OsKind::Windows => string_vec(&["ping", "-n", "4", "-w", "2000"]),
        _ => string_vec(&["ping", "-c", "4", "-W", "2"]),
    };
    let ghost r0 = string_views(r@);
    if let Some(src) = source {
        match os {
            OsKind::Windows => r.push("-S".to_owned()),
            _ => r.push("-I".to_owned()),
        }
        r.push(src.to_owned());
    }
    r.push(host.to_owned());
    assert(string_views(r@) =~= ping_args(os, host@, opt_view(source)));
    r
}

/// The longest prefix of digits and dots.
pub open spec fn digits_dots_prefix(s: Seq<char>) -> Seq<char>
    decreases s.len(),
{
    if s.len() > 0 && (('0' <= s[0] && s[0] <= '9') || s[0] == '.') {
        seq![s[0]] + digits_dots_prefix(s.drop_first())
    } else {
        Seq::empty()
    }
}

/// The average latency a line of Windows `ping` output gives: the number
/// that starts the field after the last `=` of the `Average` line
/// (`Minimum = 1ms, Maximum = 3ms, Average = 2ms` gives `2`).
pub open spec fn windows_ping_latency(line: Seq<char>) -> Option<Seq<char>> {
    let p = split_on(line, '=');
    if contains(line, "Average"@) && p.len() >= 3 {
        let num = digits_dots_prefix(trim(p.last()));
        if float_text(num) {
            Some(num)
        } else {
            None
        }
    } else {
        None
    }
}

/// The average latency a line of Unix `ping` output gives: the second
/// `/`-separated figure after the last `=` of the `rtt` or `round-trip`
/// line, when there are at least four.
pub open spec fn unix_ping_latency(line: Seq<char>) -> Option<Seq<char>> {
    let k = rfind_char(line, '=');
    if (contains(line, "rtt"@) || contains(line, "round-trip"@)) && k >= 0 {
        let p = split_on(trim(line.subrange(k + 1, line.len() as int)), '/');
        if p.len() >= 4 && float_text(p[1]) {
            Some(p[1])
        } else {
            None
        }
    } else {
        None
    }
}

/// The first latency the lines from position `k` on give.
pub open spec fn first_ping_latency(ls: Seq<Seq<char>>, k: int, windows: bool) -> Option<Seq<char>>
    decreases ls.len() - k,
{
    if k < 0 || k >= ls.len() {
        None
    } else {
        let l = if windows {
            windows_ping_latency(ls[k])
        } else {
            unix_ping_latency(ls[k])
        };
        if l is Some {
            l
        } else {
            first_ping_latency(ls, k + 1, windows)
        }
    }
}

/// The average latency of `ping` output, as the text of a number.
pub open spec fn ping_latency(stdout: Seq<char>, windows: bool) -> Option<Seq<char>> {
    first_ping_latency(lines(stdout), 0, windows)
}

fn digits_dots(v: &[char]) -> (r: Vec<char>)
    ensures
        r@ == digits_dots_prefix(v@),
{
    let n = v.len();
    let mut i: usize = 0;
    while i < n && (('0' <= v[i] && v[i] <= '9') || v[i] == '.')
        invariant
            i <= n == v@.len(),
            forall|j: int| 0 <= j < i ==> ('0' <= #[trigger] v@[j] && v@[j] <= '9') || v@[j] == '.',
        decreases n - i,
    {
        i += 1;
    }
    proof {
        lemma_digits_dots(v@, i as int);
    }
    slice_of(v, 0, i)
}

proof fn lemma_digits_dots(s: Seq<char>, i: int)
    requires
        0 <= i <= s.len(),
        forall|j: int| 0 <= j < i ==> ('0' <= #[trigger] s[j] && s[j] <= '9') || s[j] == '.',
        i == s.len() || !(('0' <= s[i] && s[i] <= '9') || s[i] == '.'),
    ensures
        digits_dots_prefix(s) == s.subrange(0, i),
    decreases i,
{
    if i > 0 {
        lemma_digits_dots(s.drop_first(), i - 1);
        assert(seq![s[0]] + s.drop_first().subrange(0, i - 1) =~= s.subrange(0, i));
    } else {
        assert(s.subrange(0, 0) =~= Seq::<char>::empty());
    }
}

fn line_latency(line: &Vec<char>, windows: bool) -> (r: Option<Vec<char>>)
    ensures
        match r {
            Some(t) => (if windows {
                windows_ping_latency(line@)
            } else {
                unix_ping_latency(line@)
            }) == Some(t@),
            None => (if windows {
                windows_ping_latency(line@)
            } else {
                unix_ping_latency(line@)
            }) is None,
        },
{
    if windows {
        let p = split(line, '=');
        if has_infix(line, &chars_of("Average")) && p.len() >= 3 {
            let last = p.len() - 1;
            assert(p.views()[last as int] == p@[last as int]@);
            let num = digits_dots(&trimmed(&p[last]));
            if is_float_token(&num) {
                return Some(num);
            }
        }
        None
    } else {
        if has_infix(line, &chars_of("rtt")) || has_infix(line, &chars_of("round-trip")) {
            match rfind(line, '=') {
                Some(k) => {
                    let n = line.len();
                    let after = trimmed(&slice_of(line, k + 1, n));
                    let p = split(&after, '/');
                    if p.len() >= 4 {
                        assert(p.views()[1] == p@[1]@);
                        if is_float_token(&p[1]) {
                            return Some(slice_of(&p[1], 0, p[1].len()));
                        }
                    }
                    None
                },
                None => None,
            }
        } else {
            None
        }
    }
}

/// Parse the average latency from ping output.
pub fn parse_ping_latency(stdout: &str, os: OsKind) -> (r: Option<String>)
    ensures
        r.deep_view() == ping_latency(stdout@, os == OsKind::Windows),
{
    let windows = match os {
        OsKind::Windows => true,
        _ => false,
    };
    let v = chars_of(stdout);
    let ls = lines_of(&v);
    let n = ls.len();
    let mut k = n;
    let mut found: Option<Vec<char>> = None;
    while k > 0
        invariant
            k <= n == ls@.len(),
            ls.views() == lines(stdout@),
            match found {
                Some(t) => first_ping_latency(ls.views(), k as int, windows) == Some(t@),
                None => first_ping_latency(ls.views(), k as int, windows) is None,
            },
        decreases k,
    {
        k -= 1;
        assert(ls.views()[k as int] == ls@[k as int]@);
        let l = line_latency(&ls[k], windows);
        if l.is_some() {
            found = l;
        }
    }
    match found {
        Some(t) => Some(string_of(&t)),
        None => None,
    }
}

/// What a ping to a host came to: whether it answered, the average latency
/// read from the output (none when the output gives none, in which case the
/// measured time of the run stands in), and the error when it did not.
#[derive(Debug, Clone)]
pub struct ProbeReport {
    pub host: String,
    pub reachable: bool,
    pub latency: Option<String>,
    pub error: Option<String>,
}

/// The report on a host that failed validation: it is not pinged.
pub fn invalid_host_report(host: &str, e: &AppError) -> (r: ProbeReport)
    ensures
        r.host@ == host@,
        !r.reachable,
        r.latency is None,
        r.error.deep_view() == Some(error_text(*e)),
{
    ProbeReport { host: host.to_owned(), reachable: false, latency: None, error: Some(e.message()) }
}

/// The report on a ping to `host` whose run gave `run`.
pub fn ping_report(os: OsKind, host: &str, run: &AppResult<RunOutput>) -> (r: ProbeReport)
    ensures
        r.host@ == host@,
        match run {
            Ok(o) => if o.status == 0 {
                &&& r.reachable
                &&& r.latency.deep_view() == ping_latency(o.stdout@, os == OsKind::Windows)
                &&& r.error is None
            } else {
                &&& !r.reachable
                &&& r.latency is None
                &&& r.error.deep_view() == Some("Host unreachable"@)
            },
            Err(e) => {
                &&& !r.reachable
                &&& r.latency is None
                &&& r.error.deep_view() == Some(sanitized(error_text(*e)))
            },
        },
{
    match run {
        Ok(o) => {
            if o.success() {
                ProbeReport {
                    host: host.to_owned(),
                    reachable: true,
                    latency: parse_ping_latency(o.stdout.as_str(), os),
                    error: None,
                }
            } else {
                ProbeReport {
                    host: host.to_owned(),
                    reachable: false,
                    latency: None,
                    error: Some("Host unreachable".to_owned()),
                }
            }
        },
        Err(e) => ProbeReport {
            host: host.to_owned(),
            reachable: false,
            latency: None,
            error: Some(sanitize_output(e.message().as_str())),
        },
    }
}

// ---------------------------------------------------------------------------
// Lookups
// ---------------------------------------------------------------------------

/// The arguments of a single A lookup of `hostname` through `server` (the
/// system resolver when none), with a short timeout and one retry.
pub open spec fn lookup_args(os: OsKind, server: Option<Seq<char>>, hostname: Seq<char>) -> Seq<Seq<char>> {
    if os == OsKind::Windows {
        seq!["nslookup"@, "-type=A"@, "-timeout=3"@, "-retry=1"@, hostname] + match server {
            Some(s) => seq![s],
            None => Seq::empty(),
        }
    } else {
        seq!["dig"@, "+short"@, "+time=3"@, "+tries=1"@, hostname, "A"@] + match server {
            Some(s) => seq!["@"@ + s],
            None => Seq::empty(),
        }
    }
}

/// The lookup command for `hostname`; none when the hostname is not valid,
/// in which case it does not resolve.
pub fn lookup_command(os: OsKind, server: Option<&str>, hostname: &str) -> (r: Option<Vec<String>>)
    ensures
        !host_ok(hostname) ==> r is None,
        host_ok(hostname) ==> (r matches Some(c) && string_views(c@) == lookup_args(
            os,
            opt_view(server),
            hostname@,
        )),
{
    if validate_host(hostname).is_err() {
        return None;
    }
    let mut r = match os {
        OsKind::Windows => string_vec(&["nslookup", "-type=A", "-timeout=3", "-retry=1", hostname]),
        _ => string_vec(&["dig", "+short", "+time=3", "+tries=1", hostname, "A"]),
    };
    if let Some(s) = server {
        match os {
            OsKind::Windows => r.push(s.to_owned()),
            _ => r.push(concat("@", s)),
        }
    }
    assert(string_views(r@) =~= lookup_args(os, opt_view(server), hostname@));
    Some(r)
}

/// A lowered `nslookup` answer that reports a failure.
pub open spec fn nslookup_failed(l: Seq<char>) -> bool {
    ||| contains(l, "server failed"@)
    ||| contains(l, "servfail"@)
    ||| contains(l, "query refused"@)
    ||| contains(l, "request to"@)
    ||| contains(l, "timed out"@)
    ||| contains(l, "no response"@)
    ||| contains(l, "non-existent"@)
}

/// A lowered `nslookup` answer that names an answer and reports no failure.
pub open spec fn nslookup_answered(l: Seq<char>) -> bool {
    !nslookup_failed(l) && (contains(l, "name:"@) || contains(l, "addresses:"@))
}

/// Whether lowered `nslookup` output names an answer and reports no failure.
pub fn nslookup_answer_found(lowered: &str) -> (r: bool)
    ensures
        r == nslookup_answered(lowered@),
{
    let l = chars_of(lowered);
    if has_infix(&l, &chars_of("server failed")) || has_infix(&l, &chars_of("servfail"))
        || has_infix(&l, &chars_of("query refused")) || has_infix(&l, &chars_of("request to"))
        || has_infix(&l, &chars_of("timed out")) || has_infix(&l, &chars_of("no response"))
        || has_infix(&l, &chars_of("non-existent")) {
        return false;
    }
    has_infix(&l, &chars_of("name:")) || has_infix(&l, &chars_of("addresses:"))
}

/// Whether a lookup came back with an A record: on Windows the lowered
/// `nslookup` output names an answer and reports no failure; elsewhere a line
/// of `dig +short` output is an IPv4 address.
pub open spec fn lookup_answered(os: OsKind, run: AppResult<RunOutput>) -> bool {
    match run {
        Ok(o) => if os == OsKind::Windows {
            nslookup_answered(lowercase(combined_text(o)))
        } else {
            exists|i: int| 0 <= i < lines(o.stdout@).len() && std_ipv4(trim(#[trigger] lines(o.stdout@)[i]))
        },
        Err(_) => false,
    }
}

/// Read whether the run of [`lookup_command`] resolved the name.
pub fn lookup_resolved(os: OsKind, run: &AppResult<RunOutput>) -> (r: bool)
    ensures
        r == lookup_answered(os, *run),
{
    match run {
        Ok(o) => {
            match os {
                OsKind::Windows => {
                    let lower = to_lowercase(o.combined().as_str());
                    nslookup_answer_found(lower.as_str())
                },
                _ => {
                    let v = chars_of(o.stdout.as_str());
                    let ls = lines_of(&v);
                    let n = ls.len();
                    for i in 0..n
                        invariant
                            n == ls@.len(),
                            ls.views() == lines(o.stdout@),
                            lookup_answered(os, *run) == exists|j: int| 0 <= j < lines(o.stdout@).len() && std_ipv4(trim(#[trigger] lines(o.stdout@)[j])),
                            forall|j: int| 0 <= j < i ==> !std_ipv4(trim(#[trigger] lines(o.stdout@)[j])),
                    {
                        assert(ls.views()[i as int] == ls@[i as int]@);
                        if is_std_ipv4(&trimmed(&ls[i])) {
                            assert(std_ipv4(trim(lines(o.stdout@)[i as int])));
                            return true;
                        }
                    }
                    false
                },
            }
        },
        Err(_) => false,
    }
}

// ---------------------------------------------------------------------------
// DNSSEC probe
// ---------------------------------------------------------------------------

/// The control domain, which every working resolver resolves.
pub open spec fn control_domain() -> Seq<char> {
    "cloudflare.com"@
}

/// The domain with broken signatures, which a validating resolver refuses.
pub open spec fn broken_domain() -> Seq<char> {
    "dnssec-failed.org"@
}

/// Where a DNSSEC probe stands: the control lookup through the given
/// resolver, the control lookup through the system resolver after that
/// failed, or the lookup of the broken domain.
#[derive(Debug, Clone, Copy, PartialEq, Eq, Structural)]
pub enum DnssecStage {
    Control,
    Fallback,
    Broken,
}

/// What the probe does next.
#[derive(Debug, Clone)]
pub enum DnssecStep {
    /// Resolve the name (second) through the server (first; the system
    /// resolver when none), then hand the answer to [`dnssec_next`].
    Lookup(Option<String>, String),
    /// The probe is over: whether the resolver validates, or none when DNS
    /// did not work at all.
    Verdict(Option<bool>),
}

/// A step as (server, name) for a lookup.
pub open spec fn is_lookup(s: DnssecStep, server: Option<Seq<char>>, name: Seq<char>) -> bool {
    s matches DnssecStep::Lookup(sv, n) && sv.deep_view() == server && n@ == name
}

/// Real DNSSEC validation probe, first step: a control lookup through the
/// resolver in use (the system resolver when none).
pub fn dnssec_start(server: Option<&str>) -> (r: (DnssecStage, DnssecStep))
    ensures
        r.0 == DnssecStage::Control,
        is_lookup(r.1, opt_view(server), control_domain()),
{
    let sv = match server {
        Some(s) => Some(s.to_owned()),
        None => None,
    };
    (DnssecStage::Control, DnssecStep::Lookup(sv, "cloudflare.com".to_owned()))
}

/// The content of a probe step.
pub enum StepView {
    Lookup(Option<Seq<char>>, Seq<char>),
    Verdict(Option<bool>),
}

/// The content of a step.
pub open spec fn step_view(s: DnssecStep) -> StepView {
    match s {
        DnssecStep::Lookup(sv, n) => StepView::Lookup(sv.deep_view(), n@),
        DnssecStep::Verdict(v) => StepView::Verdict(v),
    }
}

/// The probe's move from `stage`, whose lookup went through `server`, given
/// whether that lookup resolved. A failed control lookup through a given
/// resolver is retried through the system resolver; without a working
/// control lookup there is no verdict; the resolver validates when the
/// broken domain does not resolve.
pub open spec fn dnssec_transition(stage: DnssecStage, server: Option<Seq<char>>, resolved: bool) -> (DnssecStage, StepView) {
    match stage {
        DnssecStage::Control => if resolved {
            (DnssecStage::Broken, StepView::Lookup(server, broken_domain()))
        } else if server is Some {
            (DnssecStage::Fallback, StepView::Lookup(None, control_domain()))
        } else {
            (stage, StepView::Verdict(None))
        },
        DnssecStage::Fallback => if resolved {
            (DnssecStage::Broken, StepView::Lookup(None, broken_domain()))
        } else {
            (stage, StepView::Verdict(None))
        },
        DnssecStage::Broken => (stage, StepView::Verdict(Some(!resolved))),
    }
}

/// The probe's next step, given its stage, the server of its last lookup and
/// whether that lookup resolved.
pub fn dnssec_next(stage: DnssecStage, server: Option<&str>, resolved: bool) -> (r: (DnssecStage, DnssecStep))
    ensures
        (r.0, step_view(r.1)) == dnssec_transition(stage, opt_view(server), resolved),
{
    match stage {
        DnssecStage::Control => {
            if resolved {
                let sv = match server {
                    Some(s) => Some(s.to_owned()),
                    None => None,
                };
                (DnssecStage::Broken, DnssecStep::Lookup(sv, "dnssec-failed.org".to_owned()))
            } else if server.is_some() {
                (DnssecStage::Fallback, DnssecStep::Lookup(None, "cloudflare.com".to_owned()))
            } else {
                (stage, DnssecStep::Verdict(None))
            }
        },
        DnssecStage::Fallback => {
            if resolved {
                (DnssecStage::Broken, DnssecStep::Lookup(None, "dnssec-failed.org".to_owned()))
            } else {
                (stage, DnssecStep::Verdict(None))
            }
        },
        DnssecStage::Broken => (stage, DnssecStep::Verdict(Some(!resolved))),
    }
}

/// The verdict a probe reaches from `stage`, whose lookup goes through
/// `server`, when its lookups get the answers `a` in turn; none when the
/// answers run out first.
pub open spec fn run_probe(stage: DnssecStage, server: Option<Seq<char>>, a: Seq<bool>) -> Option<Option<bool>>
    decreases a.len(),
{
    if a.len() == 0 {
        None
    } else {
        let (next, step) = dnssec_transition(stage, server, a[0]);
        match step {
            StepView::Verdict(v) => Some(v),
            StepView::Lookup(sv, _) => run_probe(next, sv, a.drop_first()),
        }
    }
}

/// The probe reaches its verdict within three lookups, whatever they answer:
/// the resolver validates exactly when the broken domain does not resolve
/// after a control lookup worked through it or, failing that, through the
/// system resolver; without a working control lookup there is no verdict.
pub proof fn law_dnssec_probe(server: Option<Seq<char>>, a: Seq<bool>)
    requires
        a.len() == 3,
    ensures
        run_probe(DnssecStage::Control, server, a) == Some(
            if a[0] {
                Some(!a[1])
            } else if server is Some && a[1] {
                Some(!a[2])
            } else {
                None
            },
        ),
{
    let a1 = a.drop_first();
    let a2 = a1.drop_first();
    assert(a1[0] == a[1] && a2[0] == a[2]);
    reveal_with_fuel(run_probe, 4);
}

// ---------------------------------------------------------------------------
// Resolving a host
// ---------------------------------------------------------------------------

/// The arguments of a lookup of `hostname` through `dns_server` (the system
/// resolver when none).
pub open spec fn resolve_args(os: OsKind, hostname: Seq<char>, dns_server: Option<Seq<char>>) -> Seq<Seq<char>> {
    if os == OsKind::Windows {
        seq!["nslookup"@, hostname] + match dns_server {
            Some(s) => seq![s],
            None => Seq::empty(),
        }
    } else {
        seq!["dig"@, "+short"@] + match dns_server {
            Some(s) => seq!["@"@ + s],
            None => Seq::empty(),
        } + seq![hostname]
    }
}

/// The command that resolves `hostname`, after the hostname is validated.
pub fn resolve_command(os: OsKind, hostname: &str, dns_server: Option<&str>) -> (r: AppResult<Vec<String>>)
    ensures
        !host_ok(hostname) ==> crate::errors::is_validation_err(r, "Invalid host"@),
        host_ok(hostname) ==> (r matches Ok(c) && string_views(c@) == resolve_args(
            os,
            hostname@,
            opt_view(dns_server),
        )),
{
    match validate_host(hostname) {
        Err(e) => return Err(e),
        Ok(()) => {},
    }
    let mut r: Vec<String> = Vec::new();
    match os {
        OsKind::Windows => {
            r.push("nslookup".to_owned());
            r.push(hostname.to_owned());
            if let Some(s) = dns_server {
                r.push(s.to_owned());
            }
        },
        _ => {
            r.push("dig".to_owned());
            r.push("+short".to_owned());
            if let Some(s) = dns_server {
                r.push(concat("@", s));
            }
            r.push(hostname.to_owned());
        },
    }
    assert(string_views(r@) =~= resolve_args(os, hostname@, opt_view(dns_server)));
    Ok(r)
}

/// The address a line of lookup output gives: the trimmed line, without an
/// `Address:` or `Addresses:` label, when that is an IP address.
pub open spec fn address_of_line(line: Seq<char>) -> Option<Seq<char>> {
    let t = trim(line);
    let a = if starts_with(t, "Address:"@) {
        trim(t.subrange(8, t.len() as int))
    } else if starts_with(t, "Addresses:"@) {
        trim(t.subrange(10, t.len() as int))
    } else {
        t
    };
    if t.len() > 0 && std_ip(a) {
        Some(a)
    } else {
        None
    }
}

/// The addresses of the first `n` lines.
pub open spec fn addresses_of(ls: Seq<Seq<char>>, n: int) -> Seq<Seq<char>>
    decreases n,
{
    if n <= 0 || n > ls.len() {
        Seq::empty()
    } else {
        let r = addresses_of(ls, n - 1);
        match address_of_line(ls[n - 1]) {
            Some(a) => r.push(a),
            None => r,
        }
    }
}

/// Read the addresses a successful lookup printed.
pub fn resolved_addresses(stdout: &str) -> (r: Vec<String>)
    ensures
        string_views(r@) == addresses_of(lines(stdout@), lines(stdout@).len() as int),
{
    let v = chars_of(stdout);
    let ls = lines_of(&v);
    let n = ls.len();
    let address = chars_of("Address:");
    let addresses = chars_of("Addresses:");
    proof {
        reveal_strlit("Address:");
        reveal_strlit("Addresses:");
    }
    let mut r: Vec<String> = Vec::new();
    for i in 0..n
        invariant
            n == ls@.len(),
            ls.views() == lines(stdout@),
            address@ == "Address:"@,
            addresses@ == "Addresses:"@,
            address@.len() == 8,
            addresses@.len() == 10,
            string_views(r@) == addresses_of(ls.views(), i as int),
    {
        assert(ls.views()[i as int] == ls@[i as int]@);
        let t = trimmed(&ls[i]);
        let tn = t.len();
        let a = if has_prefix(&t, &address) {
            trimmed(&slice_of(&t, 8, tn))
        } else if has_prefix(&t, &addresses) {
            trimmed(&slice_of(&t, 10, tn))
        } else {
            slice_of(&t, 0, tn)
        };
        assert(t@.subrange(0, tn as int) =~= t@);
        let ghost before = string_views(r@);
        if tn > 0 && (is_std_ipv4(&a) || is_std_ipv6(&a)) {
            r.push(string_of(&a));
            assert(string_views(r@) =~= before.push(a@));
        }
    }
    r
}

} // verus!
