//! Linux: reading the adapters and servers each DNS backend reports
//! (NetworkManager, systemd-resolved, `/etc/resolv.conf`), and the shell
//! commands that change DNS through each backend.
use vstd::prelude::*;

use crate::models::{adapter_views, AdapterView, NetworkAdapter};
use crate::text::{
    chars_of, has_char, has_prefix, lines, lines_of, slice_of, split, split_on, split_once,
    split_once_at, starts_with, string_of, string_views, strip_set, stripped_set, trim, trimmed,
    words, words_of, NestedView,
};
use crate::command_runner::RunOutput;
use crate::dns::shell::{law_sh_quote_round_trip, quote_all, quoted_all, sh_quote, sh_quoted, sh_word};
use crate::dns::{
    all_servers, collect_servers, direct_result, ipv4_server_list, ipv4_servers,
    ipv6_server_list, ipv6_servers, mark_first_primary, marked_primary, nonempty_server,
    plan_is, run_failure, ChangePlan, PlanView,
};
use crate::errors::AppResult;
use crate::models::{err_result, ok_result, CommandResult, DnsApplyRequest};
use crate::text::{concat, join, join_strings, opt_view, str_eq, string_vec};
use crate::validation::sanitized;

verus! {

// ---------------------------------------------------------------------------
// Servers
// ---------------------------------------------------------------------------

/// The servers of `s` of one family: those with a `:` (IPv6) when `v6`,
/// else those without.
pub open spec fn of_family(s: Seq<Seq<char>>, v6: bool) -> Seq<Seq<char>>
    decreases s.len(),
{
    if s.len() == 0 {
        Seq::empty()
    } else {
        let r = of_family(s.drop_last(), v6);
        if s.last().contains(':') == v6 {
            r.push(s.last())
        } else {
            r
        }
    }
}

/// Servers sorted into the two families, keeping their order.
pub struct ServerLists {
    pub ipv4: Vec<String>,
    pub ipv6: Vec<String>,
}

/// The servers of the lists hold those of `s`, each in its family.
pub open spec fn sorted_into(l: ServerLists, s: Seq<Seq<char>>) -> bool {
    &&& string_views(l.ipv4@) == of_family(s, false)
    &&& string_views(l.ipv6@) == of_family(s, true)
}

pub(crate) fn add_server(l: &mut ServerLists, ip: Vec<char>, Ghost(s): Ghost<Seq<Seq<char>>>)
    requires
        sorted_into(*old(l), s),
    ensures
        sorted_into(*final(l), s.push(ip@)),
{
    let ghost s2 = s.push(ip@);
    assert(s2.drop_last() =~= s);
    let ghost v4 = string_views(l.ipv4@);
    let ghost v6 = string_views(l.ipv6@);
    if has_char(&ip, ':') {
        l.ipv6.push(string_of(&ip));
        assert(string_views(l.ipv6@) =~= v6.push(ip@));
        assert(string_views(l.ipv4@) =~= v4);
    } else {
        l.ipv4.push(string_of(&ip));
        assert(string_views(l.ipv4@) =~= v4.push(ip@));
        assert(string_views(l.ipv6@) =~= v6);
    }
}

/// The trimmed, non-empty pieces of `p`.
pub open spec fn nonempty_trimmed(p: Seq<Seq<char>>) -> Seq<Seq<char>>
    decreases p.len(),
{
    if p.len() == 0 {
        Seq::empty()
    } else {
        let r = nonempty_trimmed(p.drop_last());
        if trim(p.last()).len() > 0 {
            r.push(trim(p.last()))
        } else {
            r
        }
    }
}

/// Where the adapters of a backend are read from.
#[derive(Debug, Clone, Copy, PartialEq, Eq, Structural)]
pub enum ListingSource {
    /// The NetworkManager connections and their servers.
    Connections,
    /// The links of `resolvectl status`.
    ResolvedStatus,
    /// The file `/etc/resolv.conf`.
    ResolvConfFile,
    /// No source: the backend lists no adapters.
    Nothing,
}

/// Where to read the adapters of a backend from.
pub fn listing_source(backend: &str) -> (r: ListingSource)
    ensures
        r == (if backend@ == "networkmanager"@ {
            ListingSource::Connections
        } else if backend@ == "systemd-resolved"@ {
            ListingSource::ResolvedStatus
        } else if backend@ == "resolv.conf"@ {
            ListingSource::ResolvConfFile
        } else {
            ListingSource::Nothing
        }),
{
    if str_eq(backend, "networkmanager") {
        ListingSource::Connections
    } else if str_eq(backend, "systemd-resolved") {
        ListingSource::ResolvedStatus
    } else if str_eq(backend, "resolv.conf") {
        ListingSource::ResolvConfFile
    } else {
        ListingSource::Nothing
    }
}

// ---------------------------------------------------------------------------
// NetworkManager
// ---------------------------------------------------------------------------

/// A NetworkManager connection as `nmcli -t -f NAME,UUID,DEVICE,STATE con
/// show` lists it.
#[derive(Debug, Clone)]
pub struct NmConnection {
    pub name: String,
    pub uuid: String,
    pub device: String,
    pub active: bool,
}

/// A connection as (name, uuid, device, active).
pub open spec fn connection_view(c: NmConnection) -> (Seq<char>, Seq<char>, Seq<char>, bool) {
    (c.name@, c.uuid@, c.device@, c.active)
}

/// The connection a listing line stands for: a line of at least four
/// `:`-separated fields, active when the fourth reads `activated`.
pub open spec fn nm_connection(line: Seq<char>) -> Option<(Seq<char>, Seq<char>, Seq<char>, bool)> {
    let p = split_on(line, ':');
    if p.len() < 4 {
        None
    } else {
        Some((p[0], p[1], p[2], p[3] == "activated"@))
    }
}

/// The connections of the first `n` listing lines.
pub open spec fn nm_connections_of(ls: Seq<Seq<char>>, n: int) -> Seq<(Seq<char>, Seq<char>, Seq<char>, bool)>
    decreases n,
{
    if n <= 0 || n > ls.len() {
        Seq::empty()
    } else {
        let r = nm_connections_of(ls, n - 1);
        match nm_connection(ls[n - 1]) {
            Some(c) => r.push(c),
            None => r,
        }
    }
}

/// The connections of a listing.
pub open spec fn listed_connections(stdout: Seq<char>) -> Seq<(Seq<char>, Seq<char>, Seq<char>, bool)> {
    let ls = lines(stdout);
    nm_connections_of(ls, ls.len() as int)
}

/// Read the connections that `nmcli -t -f NAME,UUID,DEVICE,STATE con show`
/// lists.
pub fn parse_nm_connections(stdout: &str) -> (r: Vec<NmConnection>)
    ensures
        r@.len() == listed_connections(stdout@).len(),
        forall|i: int| 0 <= i < r@.len() ==> connection_view(#[trigger] r@[i]) == listed_connections(stdout@)[i],
{
    let v = chars_of(stdout);
    let ls = lines_of(&v);
    let n = ls.len();
    let mut out: Vec<NmConnection> = Vec::new();
    let active = chars_of("activated");
    for i in 0..n
        invariant
            n == ls@.len(),
            ls.views() == lines(stdout@),
            active@ == "activated"@,
            out@.len() == nm_connections_of(ls.views(), i as int).len(),
            forall|k: int| 0 <= k < out@.len() ==> connection_view(#[trigger] out@[k]) == nm_connections_of(ls.views(), i as int)[k],
    {
        assert(ls.views()[i as int] == ls@[i as int]@);
        let p = split(&ls[i], ':');
        if p.len() >= 4 {
            assert(forall|k: int| 0 <= k < 4 ==> p.views()[k] == p@[k]@);
            let c = NmConnection {
                name: string_of(&p[0]),
                uuid: string_of(&p[1]),
                device: string_of(&p[2]),
                active: crate::text::same(&p[3], &active),
            };
            out.push(c);
        }
    }
    out
}

/// The command that lists the NetworkManager connections.
pub fn connection_listing_command() -> (r: Vec<String>)
    ensures
        string_views(r@) == seq!["nmcli"@, "-t"@, "-f"@, "NAME,UUID,DEVICE,STATE"@, "con"@, "show"@],
{
    let r = string_vec(&["nmcli", "-t", "-f", "NAME,UUID,DEVICE,STATE", "con", "show"]);
    assert(string_views(r@) =~= seq!["nmcli"@, "-t"@, "-f"@, "NAME,UUID,DEVICE,STATE"@, "con"@, "show"@]);
    r
}

/// The command that prints the DNS servers of a connection.
pub fn connection_dns_command(uuid: &str) -> (r: Vec<String>)
    ensures
        string_views(r@) == seq!["nmcli"@, "-t"@, "-f"@, "IP4.DNS,IP6.DNS"@, "con"@, "show"@, uuid@],
{
    let r = string_vec(&["nmcli", "-t", "-f", "IP4.DNS,IP6.DNS", "con", "show", uuid]);
    assert(string_views(r@) =~= seq!["nmcli"@, "-t"@, "-f"@, "IP4.DNS,IP6.DNS"@, "con"@, "show"@, uuid@]);
    r
}

/// The values listed after the first `:` of a line, split at commas, trimmed,
/// empty ones dropped.
pub open spec fn line_values(line: Seq<char>) -> Seq<Seq<char>> {
    match split_once(line, ':') {
        Some((_, val)) => nonempty_trimmed(split_on(val, ',')),
        None => Seq::empty(),
    }
}

/// The values of the first `n` lines.
pub open spec fn values_of(ls: Seq<Seq<char>>, n: int) -> Seq<Seq<char>>
    decreases n,
{
    if n <= 0 || n > ls.len() {
        Seq::empty()
    } else {
        values_of(ls, n - 1) + line_values(ls[n - 1])
    }
}

/// The servers `nmcli -t -f IP4.DNS,IP6.DNS con show <uuid>` prints for a
/// connection, in output order.
pub open spec fn nm_dns_values(stdout: Seq<char>) -> Seq<Seq<char>> {
    let ls = lines(stdout);
    values_of(ls, ls.len() as int)
}

fn add_line_values(l: &mut ServerLists, line: &Vec<char>, Ghost(s): Ghost<Seq<Seq<char>>>)
    requires
        sorted_into(*old(l), s),
    ensures
        sorted_into(*final(l), s + line_values(line@)),
{
    match split_once_at(line, ':') {
        Some((_, val)) => {
            let p = split(&val, ',');
            let m = p.len();
            for j in 0..m
                invariant
                    m == p@.len(),
                    p.views() == split_on(val@, ','),
                    sorted_into(*l, s + nonempty_trimmed(p.views().take(j as int))),
            {
                assert(p.views().take(j + 1).drop_last() =~= p.views().take(j as int));
                assert(p.views().take(j + 1).last() == p@[j as int]@);
                let ip = trimmed(&p[j]);
                if ip.len() > 0 {
                    let ghost before = s + nonempty_trimmed(p.views().take(j as int));
                    add_server(l, ip, Ghost(before));
                    assert(before.push(trim(p@[j as int]@)) =~= s + nonempty_trimmed(p.views().take(j + 1)));
                } else {
                    assert(s + nonempty_trimmed(p.views().take(j as int)) =~= s + nonempty_trimmed(p.views().take(j + 1)));
                }
            }
            assert(p.views().take(m as int) =~= p.views());
        },
        None => {
            assert(s + Seq::<Seq<char>>::empty() =~= s);
        },
    }
}

/// The servers of a connection, sorted into the two families.
pub fn nm_dns_servers(stdout: &str) -> (r: ServerLists)
    ensures
        sorted_into(r, nm_dns_values(stdout@)),
{
    let v = chars_of(stdout);
    let ls = lines_of(&v);
    let n = ls.len();
    let mut l = ServerLists { ipv4: Vec::new(), ipv6: Vec::new() };
    assert(string_views(l.ipv4@) =~= Seq::<Seq<char>>::empty());
    assert(string_views(l.ipv6@) =~= Seq::<Seq<char>>::empty());
    for i in 0..n
        invariant
            n == ls@.len(),
            ls.views() == lines(stdout@),
            sorted_into(l, values_of(ls.views(), i as int)),
    {
        assert(ls.views()[i as int] == ls@[i as int]@);
        add_line_values(&mut l, &ls[i], Ghost(values_of(ls.views(), i as int)));
    }
    l
}

/// The adapter a connection stands for, given its servers: named after its
/// device, or after the connection when it has none.
pub open spec fn nm_adapter_view(c: (Seq<char>, Seq<char>, Seq<char>, bool), dns: Seq<Seq<char>>) -> AdapterView {
    AdapterView {
        id: c.1,
        name: if c.2.len() > 0 {
            c.2
        } else {
            c.0
        },
        description: Some(c.0),
        is_up: c.3,
        is_primary: false,
        ipv4_dns: of_family(dns, false),
        ipv6_dns: of_family(dns, true),
    }
}

/// The adapter of a connection, given what `nmcli` printed of its servers.
pub fn nm_adapter(conn: &NmConnection, dns_stdout: &str) -> (r: NetworkAdapter)
    ensures
        r@ == nm_adapter_view(connection_view(*conn), nm_dns_values(dns_stdout@)),
{
    let l = nm_dns_servers(dns_stdout);
    let name = if conn.device.as_str().is_empty() {
        conn.name.clone()
    } else {
        conn.device.clone()
    };
    let a = NetworkAdapter {
        id: conn.uuid.clone(),
        name,
        description: Some(conn.name.clone()),
        is_up: conn.active,
        is_primary: false,
        ipv4_dns: l.ipv4,
        ipv6_dns: l.ipv6,
    };
    assert(a@.ipv4_dns =~= string_views(a.ipv4_dns@));
    assert(a@.ipv6_dns =~= string_views(a.ipv6_dns@));
    a
}

// ---------------------------------------------------------------------------
// systemd-resolved
// ---------------------------------------------------------------------------

/// The command that shows the links systemd-resolved knows.
pub fn resolvectl_status_command() -> (r: Vec<String>)
    ensures
        string_views(r@) == seq!["resolvectl"@, "status"@],
{
    let r = string_vec(&["resolvectl", "status"]);
    assert(string_views(r@) =~= seq!["resolvectl"@, "status"@]);
    r
}

/// The adapter a `Link` line of `resolvectl status` opens, before its
/// servers are read.
pub open spec fn link_adapter(name: Seq<char>, servers: Seq<Seq<char>>) -> AdapterView {
    AdapterView {
        id: name,
        name: name,
        description: None,
        is_up: true,
        is_primary: false,
        ipv4_dns: of_family(servers, false),
        ipv6_dns: of_family(servers, true),
    }
}

/// The name of the link a `Link` line opens: its third word without
/// parentheses, or nothing.
pub open spec fn link_name(t: Seq<char>) -> Seq<char> {
    let w = words(t);
    if w.len() > 2 {
        strip_set(w[2], "()"@, true)
    } else {
        Seq::empty()
    }
}

/// The state of the `resolvectl status` reader after some lines: the links
/// read so far, and the open link as (name, servers) if any.
pub open spec fn resolvectl_step(
    st: (Seq<(Seq<char>, Seq<Seq<char>>)>, Option<(Seq<char>, Seq<Seq<char>>)>),
    line: Seq<char>,
) -> (Seq<(Seq<char>, Seq<Seq<char>>)>, Option<(Seq<char>, Seq<Seq<char>>)>) {
    let t = trim(line);
    if starts_with(t, "Link "@) {
        let done = match st.1 {
            Some(c) => st.0.push(c),
            None => st.0,
        };
        (done, Some((link_name(t), Seq::empty())))
    } else if starts_with(t, "DNS Servers:"@) {
        match st.1 {
            Some(c) => (st.0, Some((c.0, c.1 + words(t.subrange(12, t.len() as int))))),
            None => st,
        }
    } else {
        st
    }
}

/// The reader's state after the first `n` lines.
pub open spec fn resolvectl_state(ls: Seq<Seq<char>>, n: int) -> (Seq<(Seq<char>, Seq<Seq<char>>)>, Option<(Seq<char>, Seq<Seq<char>>)>)
    decreases n,
{
    if n <= 0 || n > ls.len() {
        (Seq::empty(), None)
    } else {
        resolvectl_step(resolvectl_state(ls, n - 1), ls[n - 1])
    }
}

/// The links of `resolvectl status` output as adapters, the first one
/// primary.
pub open spec fn resolvectl_adapters(stdout: Seq<char>) -> Seq<AdapterView> {
    let ls = lines(stdout);
    let st = resolvectl_state(ls, ls.len() as int);
    let all = match st.1 {
        Some(c) => st.0.push(c),
        None => st.0,
    };
    marked_primary(Seq::new(all.len(), |i: int| link_adapter(all[i].0, all[i].1)), 0)
}

/// Read the links of `resolvectl status` and their DNS servers; the first
/// link is the primary one.
pub fn parse_resolvectl_status(stdout: &str) -> (r: Vec<NetworkAdapter>)
    ensures
        adapter_views(r@) == resolvectl_adapters(stdout@),
{
    let v = chars_of(stdout);
    let ls = lines_of(&v);
    let n = ls.len();
    let link = chars_of("Link ");
    let dns = chars_of("DNS Servers:");
    proof {
        reveal_strlit("DNS Servers:");
    }
    let mut done: Vec<NetworkAdapter> = Vec::new();
    let ghost mut links: Seq<(Seq<char>, Seq<Seq<char>>)> = Seq::empty();
    let mut open = false;
    let mut name = String::new();
    let mut servers = ServerLists { ipv4: Vec::new(), ipv6: Vec::new() };
    let ghost mut cur: Seq<Seq<char>> = Seq::empty();
    assert(string_views(servers.ipv4@) =~= Seq::<Seq<char>>::empty());
    assert(string_views(servers.ipv6@) =~= Seq::<Seq<char>>::empty());
    assert(adapter_views(done@) =~= Seq::new(links.len(), |k: int| link_adapter(links[k].0, links[k].1)));
    for i in 0..n
        invariant
            n == ls@.len(),
            ls.views() == lines(stdout@),
            link@ == "Link "@,
            dns@ == "DNS Servers:"@,
            dns@.len() == 12,
            resolvectl_state(ls.views(), i as int) == (
                links,
                if open {
                    Some((name@, cur))
                } else {
                    None::<(Seq<char>, Seq<Seq<char>>)>
                },
            ),
            adapter_views(done@) == Seq::new(links.len(), |k: int| link_adapter(links[k].0, links[k].1)),
            sorted_into(servers, cur),
    {
        assert(ls.views()[i as int] == ls@[i as int]@);
        let t = trimmed(&ls[i]);
        if has_prefix(&t, &link) {
            if open {
                let a = NetworkAdapter {
                    id: name.clone(),
                    name: name.clone(),
                    description: None,
                    is_up: true,
                    is_primary: false,
                    ipv4_dns: servers.ipv4,
                    ipv6_dns: servers.ipv6,
                };
                assert(a@.ipv4_dns =~= string_views(a.ipv4_dns@));
                assert(a@.ipv6_dns =~= string_views(a.ipv6_dns@));
                assert(a@ == link_adapter(name@, cur));
                let ghost before = adapter_views(done@);
                let ghost av = a@;
                done.push(a);
                assert(adapter_views(done@) =~= before.push(av));
                proof {
                    links = links.push((name@, cur));
                }
                assert(adapter_views(done@) =~= Seq::new(links.len(), |k: int| link_adapter(links[k].0, links[k].1)));
            }
            let w = words_of(&t);
            let nm: Vec<char> = if w.len() > 2 {
                assert(w.views()[2] == w@[2]@);
                stripped_set(&w[2], &chars_of("()"), true)
            } else {
                Vec::new()
            };
            name = string_of(&nm);
            open = true;
            servers = ServerLists { ipv4: Vec::new(), ipv6: Vec::new() };
            proof {
                cur = Seq::empty();
            }
            assert(string_views(servers.ipv4@) =~= Seq::<Seq<char>>::empty());
            assert(string_views(servers.ipv6@) =~= Seq::<Seq<char>>::empty());
        } else if has_prefix(&t, &dns) {
            if open {
                let tn = t.len();
                let rest = slice_of(&t, 12, tn);
                let ws = words_of(&rest);
                let m = ws.len();
                for j in 0..m
                    invariant
                        m == ws@.len(),
                        ws.views() == words(rest@),
                        sorted_into(servers, cur + ws.views().take(j as int)),
                {
                    assert(ws.views().take(j + 1) =~= ws.views().take(j as int).push(ws@[j as int]@));
                    let ip = slice_of(&ws[j], 0, ws[j].len());
                    assert(ip@ =~= ws@[j as int]@);
                    add_server(&mut servers, ip, Ghost(cur + ws.views().take(j as int)));
                    assert((cur + ws.views().take(j as int)).push(ws@[j as int]@) =~= cur + ws.views().take(j + 1));
                }
                assert(ws.views().take(m as int) =~= ws.views());
                proof {
                    cur = cur + words(rest@);
                }
            }
        }
    }
    if open {
        let a = NetworkAdapter {
            id: name.clone(),
            name: name.clone(),
            description: None,
            is_up: true,
            is_primary: false,
            ipv4_dns: servers.ipv4,
            ipv6_dns: servers.ipv6,
        };
        assert(a@.ipv4_dns =~= string_views(a.ipv4_dns@));
        assert(a@.ipv6_dns =~= string_views(a.ipv6_dns@));
        assert(a@ == link_adapter(name@, cur));
        let ghost before = adapter_views(done@);
        let ghost av = a@;
        done.push(a);
        assert(adapter_views(done@) =~= before.push(av));
        proof {
            links = links.push((name@, cur));
        }
    }
    assert(adapter_views(done@) =~= Seq::new(links.len(), |k: int| link_adapter(links[k].0, links[k].1)));
    mark_first_primary(&mut done);
    done
}

// ---------------------------------------------------------------------------
// /etc/resolv.conf
// ---------------------------------------------------------------------------

/// The server a `resolv.conf` line names: the trimmed text after a leading
/// `nameserver`, when not empty.
pub open spec fn nameserver_of(line: Seq<char>) -> Seq<Seq<char>> {
    let t = trim(line);
    if starts_with(t, "nameserver"@) {
        let ip = trim(t.subrange(10, t.len() as int));
        if ip.len() > 0 {
            seq![ip]
        } else {
            Seq::empty()
        }
    } else {
        Seq::empty()
    }
}

/// The servers the first `n` lines name.
pub open spec fn nameservers_of(ls: Seq<Seq<char>>, n: int) -> Seq<Seq<char>>
    decreases n,
{
    if n <= 0 || n > ls.len() {
        Seq::empty()
    } else {
        nameservers_of(ls, n - 1) + nameserver_of(ls[n - 1])
    }
}

/// The single adapter that stands for the system resolver configuration.
pub open spec fn resolv_conf_adapter(content: Seq<char>) -> AdapterView {
    let ls = lines(content);
    let s = nameservers_of(ls, ls.len() as int);
    AdapterView {
        id: "resolv.conf"@,
        name: "System (resolv.conf)"@,
        description: Some("/etc/resolv.conf"@),
        is_up: true,
        is_primary: true,
        ipv4_dns: of_family(s, false),
        ipv6_dns: of_family(s, true),
    }
}

/// Read the servers of `/etc/resolv.conf` (empty content when it could not be
/// read) as the single system adapter.
pub fn parse_resolv_conf(content: &str) -> (r: Vec<NetworkAdapter>)
    ensures
        adapter_views(r@) == seq![resolv_conf_adapter(content@)],
{
    let v = chars_of(content);
    let ls = lines_of(&v);
    let n = ls.len();
    let prefix = chars_of("nameserver");
    proof {
        reveal_strlit("nameserver");
    }
    let mut l = ServerLists { ipv4: Vec::new(), ipv6: Vec::new() };
    assert(string_views(l.ipv4@) =~= Seq::<Seq<char>>::empty());
    assert(string_views(l.ipv6@) =~= Seq::<Seq<char>>::empty());
    for i in 0..n
        invariant
            n == ls@.len(),
            ls.views() == lines(content@),
            prefix@ == "nameserver"@,
            prefix@.len() == 10,
            sorted_into(l, nameservers_of(ls.views(), i as int)),
    {
        assert(ls.views()[i as int] == ls@[i as int]@);
        let ghost before = nameservers_of(ls.views(), i as int);
        let t = trimmed(&ls[i]);
        if has_prefix(&t, &prefix) {
            let tn = t.len();
            let ip = trimmed(&slice_of(&t, 10, tn));
            if ip.len() > 0 {
                let ghost ipv = ip@;
                add_server(&mut l, ip, Ghost(before));
                assert(before.push(ipv) =~= before + seq![ipv]);
            } else {
                assert(before + Seq::<Seq<char>>::empty() =~= before);
            }
        } else {
            assert(before + Seq::<Seq<char>>::empty() =~= before);
        }
    }
    let a = NetworkAdapter {
        id: "resolv.conf".to_owned(),
        name: "System (resolv.conf)".to_owned(),
        description: Some("/etc/resolv.conf".to_owned()),
        is_up: true,
        is_primary: true,
        ipv4_dns: l.ipv4,
        ipv6_dns: l.ipv6,
    };
    assert(a@.ipv4_dns =~= string_views(a.ipv4_dns@));
    assert(a@.ipv6_dns =~= string_views(a.ipv6_dns@));
    let mut r: Vec<NetworkAdapter> = Vec::new();
    r.push(a);
    assert(adapter_views(r@) =~= seq![resolv_conf_adapter(content@)]);
    r
}


// ---------------------------------------------------------------------------
// Discovery
// ---------------------------------------------------------------------------

/// The ids `nmcli -t -f UUID con show --active` lists: its trimmed, non-empty
/// lines.
pub open spec fn active_connection_ids(stdout: Seq<char>) -> Seq<Seq<char>> {
    nonempty_trimmed(lines(stdout))
}

/// Read the ids of the active connections.
pub fn active_connections(stdout: &str) -> (r: Vec<String>)
    ensures
        string_views(r@) == active_connection_ids(stdout@),
{
    let v = chars_of(stdout);
    let ls = lines_of(&v);
    let n = ls.len();
    let mut r: Vec<String> = Vec::new();
    for i in 0..n
        invariant
            n == ls@.len(),
            ls.views() == lines(stdout@),
            string_views(r@) == nonempty_trimmed(ls.views().take(i as int)),
    {
        assert(ls.views().take(i + 1).drop_last() =~= ls.views().take(i as int));
        assert(ls.views().take(i + 1).last() == ls@[i as int]@);
        let t = trimmed(&ls[i]);
        let ghost before = string_views(r@);
        if t.len() > 0 {
            r.push(string_of(&t));
            assert(string_views(r@) =~= before.push(t@));
        }
    }
    assert(ls.views().take(n as int) =~= ls.views());
    r
}

/// The command that lists the active NetworkManager connections.
pub fn active_connections_command() -> (r: Vec<String>)
    ensures
        string_views(r@) == seq!["nmcli"@, "-t"@, "-f"@, "UUID"@, "con"@, "show"@, "--active"@],
{
    let r = string_vec(&["nmcli", "-t", "-f", "UUID", "con", "show", "--active"]);
    assert(string_views(r@) =~= seq!["nmcli"@, "-t"@, "-f"@, "UUID"@, "con"@, "show"@, "--active"@]);
    r
}

/// The command that shows the default route.
pub fn default_route_command() -> (r: Vec<String>)
    ensures
        string_views(r@) == seq!["ip"@, "route"@, "show"@, "default"@],
{
    let r = string_vec(&["ip", "route", "show", "default"]);
    assert(string_views(r@) =~= seq!["ip"@, "route"@, "show"@, "default"@]);
    r
}

/// Position of the first `x` in `w`, or -1.
pub open spec fn first_index_of(w: Seq<Seq<char>>, x: Seq<char>) -> int
    decreases w.len(),
{
    if w.len() == 0 {
        -1
    } else if w[0] == x {
        0
    } else {
        let r = first_index_of(w.drop_first(), x);
        if r < 0 {
            -1
        } else {
            r + 1
        }
    }
}

proof fn lemma_first_index_of(w: Seq<Seq<char>>, x: Seq<char>, i: int)
    requires
        0 <= i <= w.len(),
        forall|j: int| 0 <= j < i ==> #[trigger] w[j] != x,
    ensures
        i < w.len() && w[i] == x ==> first_index_of(w, x) == i,
        i == w.len() ==> first_index_of(w, x) == -1,
    decreases i,
{
    if i > 0 {
        lemma_first_index_of(w.drop_first(), x, i - 1);
    }
}

/// The interface of the default route: the word after `dev` on the first
/// line of `ip route show default`, or `lo`.
pub open spec fn route_interface(stdout: Seq<char>) -> Seq<char> {
    let ls = lines(stdout);
    if ls.len() == 0 {
        "lo"@
    } else {
        let w = words(ls[0]);
        let k = first_index_of(w, "dev"@);
        if 0 <= k && k + 1 < w.len() {
            w[k + 1]
        } else {
            "lo"@
        }
    }
}

/// Read the interface of the default route.
pub fn default_route_interface(stdout: &str) -> (r: String)
    ensures
        r@ == route_interface(stdout@),
{
    let v = chars_of(stdout);
    let ls = lines_of(&v);
    if ls.len() == 0 {
        return "lo".to_owned();
    }
    assert(ls.views()[0] == ls@[0]@);
    let w = words_of(&ls[0]);
    let dev = chars_of("dev");
    let n = w.len();
    for i in 0..n
        invariant
            n == w@.len(),
            dev@ == "dev"@,
            ls.views() == lines(stdout@),
            ls@.len() > 0,
            w.views() == words(ls.views()[0]),
            forall|j: int| 0 <= j < i ==> #[trigger] w.views()[j] != "dev"@,
    {
        assert(w.views()[i as int] == w@[i as int]@);
        if crate::text::same(&w[i], &dev) {
            proof {
                lemma_first_index_of(w.views(), "dev"@, i as int);
            }
            if i + 1 < n {
                assert(w.views()[i + 1] == w@[i + 1]@);
                return string_of(&w[i + 1]);
            }
            return "lo".to_owned();
        }
    }
    proof {
        lemma_first_index_of(w.views(), "dev"@, n as int);
    }
    "lo".to_owned()
}


/// The query whose output an apply needs before its command can be built:
/// the active connections for NetworkManager and the default route for
/// systemd-resolved, when no adapter is named.
pub fn apply_discovery_command(adapter_id: Option<&str>, backend: &str) -> (r: Option<Vec<String>>)
    ensures
        adapter_id is None && backend@ == "networkmanager"@ ==> (r matches Some(c) && string_views(c@)
            == seq!["nmcli"@, "-t"@, "-f"@, "UUID"@, "con"@, "show"@, "--active"@]),
        adapter_id is None && backend@ == "systemd-resolved"@ ==> (r matches Some(c) && string_views(
            c@,
        ) == seq!["ip"@, "route"@, "show"@, "default"@]),
        adapter_id is Some || (backend@ != "networkmanager"@ && backend@ != "systemd-resolved"@)
            ==> r is None,
{
    if adapter_id.is_some() {
        return None;
    }
    proof {
        reveal_strlit("networkmanager");
        reveal_strlit("systemd-resolved");
        assert("networkmanager"@.len() != "systemd-resolved"@.len());
    }
    if str_eq(backend, "networkmanager") {
        Some(active_connections_command())
    } else if str_eq(backend, "systemd-resolved") {
        Some(default_route_command())
    } else {
        None
    }
}

/// The query whose output a clear needs: the active connections for
/// NetworkManager, when no adapter is named.
pub fn clear_discovery_command(adapter_id: Option<&str>, backend: &str) -> (r: Option<Vec<String>>)
    ensures
        adapter_id is None && backend@ == "networkmanager"@ ==> (r matches Some(c) && string_views(c@)
            == seq!["nmcli"@, "-t"@, "-f"@, "UUID"@, "con"@, "show"@, "--active"@]),
        adapter_id is Some || backend@ != "networkmanager"@ ==> r is None,
{
    if adapter_id.is_none() && str_eq(backend, "networkmanager") {
        Some(active_connections_command())
    } else {
        None
    }
}

// ---------------------------------------------------------------------------
// Commands
// ---------------------------------------------------------------------------

/// The NetworkManager steps that set a connection's servers and bring it up.
pub open spec fn nm_conn_steps(c: Seq<char>, v4: Seq<char>, v6: Seq<Seq<char>>) -> Seq<Seq<char>> {
    let set4 = seq!["nmcli con mod "@ + sh_quoted(c) + " ipv4.dns "@ + sh_quoted(v4) + " ipv4.ignore-auto-dns yes"@];
    let set6 = if v6.len() > 0 {
        seq!["nmcli con mod "@ + sh_quoted(c) + " ipv6.dns "@ + sh_quoted(join(v6, " "@)) + " ipv6.ignore-auto-dns yes"@]
    } else {
        Seq::empty()
    };
    set4 + set6 + seq!["nmcli con up "@ + sh_quoted(c)]
}

/// The NetworkManager steps that clear a connection's servers and bring it up.
pub open spec fn nm_clear_conn_steps(c: Seq<char>) -> Seq<Seq<char>> {
    seq![
        "nmcli con mod "@ + sh_quoted(c) + " ipv4.dns '' ipv4.ignore-auto-dns no"@,
        "nmcli con mod "@ + sh_quoted(c) + " ipv6.dns '' ipv6.ignore-auto-dns no"@,
        "nmcli con up "@ + sh_quoted(c),
    ]
}

/// The steps for each connection in turn: setting `v4`/`v6` when `set`,
/// clearing otherwise.
pub open spec fn nm_steps(conns: Seq<Seq<char>>, set: bool, v4: Seq<char>, v6: Seq<Seq<char>>) -> Seq<Seq<char>>
    decreases conns.len(),
{
    if conns.len() == 0 {
        Seq::empty()
    } else {
        nm_steps(conns.drop_last(), set, v4, v6) + if set {
            nm_conn_steps(conns.last(), v4, v6)
        } else {
            nm_clear_conn_steps(conns.last())
        }
    }
}

fn nm_command(conns: &[String], set: bool, v4: &str, v6: &[String]) -> (r: String)
    ensures
        r@ == join(nm_steps(string_views(conns@), set, v4@, string_views(v6@)), " && "@),
{
    let n = conns.len();
    let mut steps: Vec<String> = Vec::new();
    let v6_joined = join_strings(v6, " ");
    let qv4 = sh_quote(v4);
    let qv6 = sh_quote(v6_joined.as_str());
    for i in 0..n
        invariant
            n == conns@.len(),
            qv4@ == sh_quoted(v4@),
            qv6@ == sh_quoted(join(string_views(v6@), " "@)),
            string_views(steps@) == nm_steps(string_views(conns@).take(i as int), set, v4@, string_views(v6@)),
    {
        let ghost before = string_views(steps@);
        let ghost c = conns@[i as int]@;
        assert(string_views(conns@).take(i + 1).drop_last() =~= string_views(conns@).take(i as int));
        assert(string_views(conns@).take(i + 1).last() == c);
        let q = sh_quote(conns[i].as_str());
        let head = concat("nmcli con mod ", q.as_str());
        if set {
            let a = concat(head.as_str(), " ipv4.dns ");
            let b = concat(a.as_str(), qv4.as_str());
            steps.push(concat(b.as_str(), " ipv4.ignore-auto-dns yes"));
            if v6.len() > 0 {
                let a = concat(head.as_str(), " ipv6.dns ");
                let b = concat(a.as_str(), qv6.as_str());
                steps.push(concat(b.as_str(), " ipv6.ignore-auto-dns yes"));
            }
        } else {
            steps.push(concat(head.as_str(), " ipv4.dns '' ipv4.ignore-auto-dns no"));
            steps.push(concat(head.as_str(), " ipv6.dns '' ipv6.ignore-auto-dns no"));
        }
        steps.push(concat("nmcli con up ", q.as_str()));
        assert(string_views(steps@) =~= before + if set {
            nm_conn_steps(c, v4@, string_views(v6@))
        } else {
            nm_clear_conn_steps(c)
        });
    }
    assert(string_views(conns@).take(n as int) =~= string_views(conns@));
    join_strings(&steps, " && ")
}

/// The `nameserver` line of each server.
pub open spec fn nameserver_lines(s: Seq<Seq<char>>) -> Seq<Seq<char>> {
    Seq::new(s.len(), |i: int| "nameserver "@ + s[i])
}

fn nameserver_list(servers: &[String]) -> (r: Vec<String>)
    ensures
        string_views(r@) == nameserver_lines(string_views(servers@)),
{
    let n = servers.len();
    let mut r: Vec<String> = Vec::new();
    for i in 0..n
        invariant
            n == servers@.len(),
            string_views(r@) == nameserver_lines(string_views(servers@)).take(i as int),
    {
        let l = concat("nameserver ", servers[i].as_str());
        let ghost before = string_views(r@);
        let ghost lv = l@;
        r.push(l);
        assert(string_views(r@) =~= before.push(lv));
        assert(string_views(r@) =~= nameserver_lines(string_views(servers@)).take(i + 1));
    }
    assert(nameserver_lines(string_views(servers@)).take(n as int) =~= nameserver_lines(
        string_views(servers@),
    ));
    r
}

/// The `/etc/resolv.conf` written for a request.
pub open spec fn resolv_conf_text(req: DnsApplyRequest) -> Seq<char> {
    join(seq!["# Generated by SparkDns"@] + nameserver_lines(all_servers(req)), "\n"@) + "\n"@
}

/// The entry handed to `resolvconf` for a request: the IPv4 servers and the
/// primary IPv6 server.
pub open spec fn resolvconf_text(req: DnsApplyRequest) -> Seq<char> {
    join(
        nameserver_lines(ipv4_servers(req) + nonempty_server(req.primary_ipv6.deep_view())),
        "\n"@,
    ) + "\n"@
}

/// What applying a request on a Linux backend comes to, given the output of
/// its discovery query (see [`apply_discovery_command`]; empty when none ran).
pub open spec fn linux_apply(req: DnsApplyRequest, backend: Seq<char>, discovered: Seq<char>) -> PlanView {
    if backend == "networkmanager"@ {
        let conns = match req.adapter_id.deep_view() {
            Some(id) => seq![id],
            None => active_connection_ids(discovered),
        };
        if conns.len() == 0 {
            PlanView::Refuse("No active NetworkManager connections found."@)
        } else {
            PlanView::Run(
                join(nm_steps(conns, true, join(ipv4_servers(req), " "@), ipv6_servers(req)), " && "@),
                "DNS applied successfully."@,
            )
        }
    } else if backend == "systemd-resolved"@ {
        let iface = match req.adapter_id.deep_view() {
            Some(id) => id,
            None => route_interface(discovered),
        };
        PlanView::Run(
            "resolvectl dns "@ + sh_quoted(iface) + " "@ + join(quoted_all(all_servers(req)), " "@),
            "DNS applied successfully."@,
        )
    } else if backend == "resolv.conf"@ {
        PlanView::Run(
            "printf %s "@ + sh_quoted(resolv_conf_text(req)) + " | tee /etc/resolv.conf > /dev/null"@,
            "DNS written to /etc/resolv.conf."@,
        )
    } else if backend == "resolvconf"@ {
        PlanView::Run(
            "printf %s "@ + sh_quoted(resolvconf_text(req)) + " | resolvconf -a sparkdns"@,
            "DNS applied via resolvconf."@,
        )
    } else {
        PlanView::Refuse("Unsupported Linux DNS backend: "@ + backend)
    }
}

fn nm_targets(adapter_id: &Option<String>, discovered: &str) -> (r: Vec<String>)
    ensures
        string_views(r@) == match adapter_id.deep_view() {
            Some(id) => seq![id],
            None => active_connection_ids(discovered@),
        },
{
    match adapter_id {
        Some(id) => {
            let mut r: Vec<String> = Vec::new();
            r.push(id.clone());
            assert(string_views(r@) =~= seq![id@]);
            r
        },
        None => active_connections(discovered),
    }
}

/// Build the privileged command that applies a request on a Linux backend.
pub fn linux_apply_plan(req: &DnsApplyRequest, backend: &str, discovered: &str) -> (r: ChangePlan)
    ensures
        plan_is(r, linux_apply(*req, backend@, discovered@)),
{
    if str_eq(backend, "networkmanager") {
        let conns = nm_targets(&req.adapter_id, discovered);
        if conns.len() == 0 {
            return ChangePlan::Answer(CommandResult::err("No active NetworkManager connections found."));
        }
        let v4 = ipv4_server_list(req);
        let v6 = ipv6_server_list(req);
        let v4j = join_strings(&v4, " ");
        let cmd = nm_command(&conns, true, v4j.as_str(), &v6);
        ChangePlan::Run(cmd, "DNS applied successfully.".to_owned())
    } else if str_eq(backend, "systemd-resolved") {
        let iface = match &req.adapter_id {
            Some(id) => id.clone(),
            None => default_route_interface(discovered),
        };
        let servers = collect_servers(req);
        let args = join_strings(&quote_all(&servers), " ");
        let a = concat("resolvectl dns ", sh_quote(iface.as_str()).as_str());
        let b = concat(a.as_str(), " ");
        ChangePlan::Run(concat(b.as_str(), args.as_str()), "DNS applied successfully.".to_owned())
    } else if str_eq(backend, "resolv.conf") {
        let mut ls: Vec<String> = Vec::new();
        ls.push("# Generated by SparkDns".to_owned());
        let servers = collect_servers(req);
        let ns = nameserver_list(&servers);
        let ghost l0 = string_views(ls@);
        ls.append(&mut nameserver_list(&servers));
        assert(string_views(ls@) =~= seq!["# Generated by SparkDns"@] + nameserver_lines(all_servers(*req)));
        let content = concat(join_strings(&ls, "\n").as_str(), "\n");
        let a = concat("printf %s ", sh_quote(content.as_str()).as_str());
        ChangePlan::Run(
            concat(a.as_str(), " | tee /etc/resolv.conf > /dev/null"),
            "DNS written to /etc/resolv.conf.".to_owned(),
        )
    } else if str_eq(backend, "resolvconf") {
        let mut servers = ipv4_server_list(req);
        let ghost s0 = string_views(servers@);
        if let Some(v6) = &req.primary_ipv6 {
            if !v6.as_str().is_empty() {
                servers.push(v6.clone());
            }
        }
        assert(string_views(servers@) =~= ipv4_servers(*req) + nonempty_server(req.primary_ipv6.deep_view()));
        let ls = nameserver_list(&servers);
        let content = concat(join_strings(&ls, "\n").as_str(), "\n");
        let a = concat("printf %s ", sh_quote(content.as_str()).as_str());
        ChangePlan::Run(
            concat(a.as_str(), " | resolvconf -a sparkdns"),
            "DNS applied via resolvconf.".to_owned(),
        )
    } else {
        ChangePlan::Answer(CommandResult::err(concat("Unsupported Linux DNS backend: ", backend).as_str()))
    }
}

/// What clearing DNS on a Linux backend comes to, given the output of its
/// discovery query (see [`clear_discovery_command`]; empty when none ran).
pub open spec fn linux_clear(adapter_id: Option<Seq<char>>, backend: Seq<char>, discovered: Seq<char>) -> PlanView {
    if backend == "networkmanager"@ {
        let conns = match adapter_id {
            Some(id) => seq![id],
            None => active_connection_ids(discovered),
        };
        if conns.len() == 0 {
            PlanView::Refuse("No active NetworkManager connections found."@)
        } else {
            PlanView::Run(
                join(nm_steps(conns, false, Seq::empty(), Seq::empty()), " && "@),
                "DNS cleared and reset to automatic."@,
            )
        }
    } else if backend == "systemd-resolved"@ {
        let iface = match adapter_id {
            Some(id) => id,
            None => "lo"@,
        };
        PlanView::Run("resolvectl revert "@ + sh_quoted(iface), "DNS reverted on "@ + iface + "."@)
    } else if backend == "resolv.conf"@ {
        PlanView::Run(
            "printf %s '# Generated by SparkDns - cleared\n' | tee /etc/resolv.conf > /dev/null"@,
            "resolv.conf cleared."@,
        )
    } else if backend == "resolvconf"@ {
        PlanView::Run("resolvconf -d sparkdns"@, "resolvconf entry removed."@)
    } else {
        PlanView::Refuse("Unsupported Linux DNS backend: "@ + backend)
    }
}

/// Build the privileged command that clears DNS on a Linux backend.
pub fn linux_clear_plan(adapter_id: Option<&str>, backend: &str, discovered: &str) -> (r: ChangePlan)
    ensures
        plan_is(r, linux_clear(opt_view(adapter_id), backend@, discovered@)),
{
    if str_eq(backend, "networkmanager") {
        let conns = match adapter_id {
            Some(id) => {
                let mut r: Vec<String> = Vec::new();
                r.push(id.to_owned());
                assert(string_views(r@) =~= seq![id@]);
                r
            },
            None => active_connections(discovered),
        };
        if conns.len() == 0 {
            return ChangePlan::Answer(CommandResult::err("No active NetworkManager connections found."));
        }
        let none: Vec<String> = Vec::new();
        assert(string_views(none@) =~= Seq::<Seq<char>>::empty());
        proof {
            reveal_strlit("");
        }
        assert(""@ =~= Seq::<char>::empty());
        let cmd = nm_command(&conns, false, "", &none);
        ChangePlan::Run(cmd, "DNS cleared and reset to automatic.".to_owned())
    } else if str_eq(backend, "systemd-resolved") {
        let iface = match adapter_id {
            Some(id) => id,
            None => "lo",
        };
        let cmd = concat("resolvectl revert ", sh_quote(iface).as_str());
        let a = concat("DNS reverted on ", iface);
        ChangePlan::Run(cmd, concat(a.as_str(), "."))
    } else if str_eq(backend, "resolv.conf") {
        ChangePlan::Run(
            "printf %s '# Generated by SparkDns - cleared\n' | tee /etc/resolv.conf > /dev/null".to_owned(),
            "resolv.conf cleared.".to_owned(),
        )
    } else if str_eq(backend, "resolvconf") {
        ChangePlan::Run("resolvconf -d sparkdns".to_owned(), "resolvconf entry removed.".to_owned())
    } else {
        ChangePlan::Answer(CommandResult::err(concat("Unsupported Linux DNS backend: ", backend).as_str()))
    }
}

// ---------------------------------------------------------------------------
// Cache and DHCP
// ---------------------------------------------------------------------------

/// The command that flushes the DNS cache on a backend, given whether `nscd`
/// was found: none when there is no mechanism.
pub fn flush_command(backend: &str, nscd_found: bool) -> (r: Option<Vec<String>>)
    ensures
        backend@ == "systemd-resolved"@ ==> (r matches Some(c) && string_views(c@) == seq![
            "resolvectl"@,
            "flush-caches"@,
        ]),
        backend@ != "systemd-resolved"@ && (backend@ == "networkmanager"@ || nscd_found) ==> (r matches Some(c)
            && string_views(c@) == seq!["nscd"@, "-i"@, "hosts"@]),
        backend@ != "systemd-resolved"@ && backend@ != "networkmanager"@ && !nscd_found ==> r is None,
{
    if str_eq(backend, "systemd-resolved") {
        let r = string_vec(&["resolvectl", "flush-caches"]);
        assert(string_views(r@) =~= seq!["resolvectl"@, "flush-caches"@]);
        Some(r)
    } else if str_eq(backend, "networkmanager") || nscd_found {
        let r = string_vec(&["nscd", "-i", "hosts"]);
        assert(string_views(r@) =~= seq!["nscd"@, "-i"@, "hosts"@]);
        Some(r)
    } else {
        None
    }
}

/// The result of a cache flush on a backend: `run` is the run of
/// [`flush_command`]; it only counts for systemd-resolved, whose failure is
/// reported, while an `nscd` run is reported as attempted either way.
pub fn flush_result(backend: &str, nscd_found: bool, run: &AppResult<RunOutput>) -> (r: CommandResult)
    ensures
        backend@ == "systemd-resolved"@ ==> match run_failure("resolvectl"@, *run) {
            None => ok_result(r, "DNS cache flushed."@),
            Some(t) => err_result(r, "Failed to flush cache: "@ + sanitized(t)),
        },
        backend@ != "systemd-resolved"@ && backend@ == "networkmanager"@ ==> ok_result(
            r,
            "DNS cache flush attempted."@,
        ),
        backend@ != "systemd-resolved"@ && backend@ != "networkmanager"@ ==> ok_result(
            r,
            if nscd_found {
                "DNS cache flushed via nscd."@
            } else {
                "No DNS cache flush mechanism detected."@
            },
        ),
{
    if str_eq(backend, "systemd-resolved") {
        direct_result("resolvectl", run, "DNS cache flushed.", "Failed to flush cache: ")
    } else if str_eq(backend, "networkmanager") {
        CommandResult::ok("DNS cache flush attempted.")
    } else if nscd_found {
        CommandResult::ok("DNS cache flushed via nscd.")
    } else {
        CommandResult::ok("No DNS cache flush mechanism detected.")
    }
}

/// The answer to a DHCP renewal when `nmcli` is missing.
pub fn renew_without_nmcli() -> (r: CommandResult)
    ensures
        err_result(r, "NetworkManager (nmcli) is required for DHCP renewal on Linux."@),
{
    CommandResult::err("NetworkManager (nmcli) is required for DHCP renewal on Linux.")
}

/// The command that brings a connection up again, which renews its lease.
pub fn connection_up_command(id: &str) -> (r: Vec<String>)
    ensures
        string_views(r@) == seq!["nmcli"@, "con"@, "up"@, id@],
{
    let r = string_vec(&["nmcli", "con", "up", id]);
    assert(string_views(r@) =~= seq!["nmcli"@, "con"@, "up"@, id@]);
    r
}

/// The report of renewing every active connection (each brought up again,
/// whatever came of it).
pub open spec fn renewed_text(ids: Seq<Seq<char>>) -> Seq<char> {
    "DHCP renewed: "@ + join(Seq::new(ids.len(), |i: int| ids[i] + ": renewed"@), "; "@)
}

/// Report the renewal of every active connection.
pub fn renew_summary(ids: &[String]) -> (r: CommandResult)
    ensures
        ok_result(r, renewed_text(string_views(ids@))),
{
    let n = ids.len();
    let mut msgs: Vec<String> = Vec::new();
    for i in 0..n
        invariant
            n == ids@.len(),
            string_views(msgs@) == Seq::new(n as nat, |k: int| string_views(ids@)[k] + ": renewed"@).take(i as int),
    {
        let m = concat(ids[i].as_str(), ": renewed");
        let ghost before = string_views(msgs@);
        let ghost mv = m@;
        msgs.push(m);
        assert(string_views(msgs@) =~= before.push(mv));
        assert(string_views(msgs@) =~= Seq::new(n as nat, |k: int| string_views(ids@)[k] + ": renewed"@).take(i + 1));
    }
    let ghost all = Seq::new(n as nat, |k: int| string_views(ids@)[k] + ": renewed"@);
    assert(all.take(n as int) =~= all);
    let text = concat("DHCP renewed: ", join_strings(&msgs, "; ").as_str());
    CommandResult::ok(text.as_str())
}

/// On systemd-resolved, clearing reverts exactly the interface named by the
/// adapter id: the command is `resolvectl revert` with one shell word that
/// reads back as that id, and the message names it. `lo` is reverted only
/// when no adapter is named.
pub proof fn law_clear_reverts_named_interface(id: Seq<char>, discovered: Seq<char>)
    ensures
        linux_clear(Some(id), "systemd-resolved"@, discovered) == PlanView::Run(
            "resolvectl revert "@ + sh_quoted(id),
            "DNS reverted on "@ + id + "."@,
        ),
        sh_word(sh_quoted(id)) == Some(id),
        linux_clear(None, "systemd-resolved"@, discovered) == PlanView::Run(
            "resolvectl revert "@ + sh_quoted("lo"@),
            "DNS reverted on lo."@,
        ),
{
    reveal_strlit("systemd-resolved");
    reveal_strlit("networkmanager");
    reveal_strlit("lo");
    reveal_strlit("DNS reverted on ");
    reveal_strlit(".");
    reveal_strlit("DNS reverted on lo.");
    assert("systemd-resolved"@[0] != "networkmanager"@[0]);
    law_sh_quote_round_trip(id);
    assert("DNS reverted on "@ + "lo"@ + "."@ =~= "DNS reverted on lo."@);
}

/// On systemd-resolved, applying a request sets the servers on the adapter it
/// names: the command starts with `resolvectl dns` and one shell word that
/// reads back as that adapter id. Only a request that names no adapter goes to
/// the interface of the default route found by discovery.
pub proof fn law_apply_targets_named_interface(req: DnsApplyRequest, discovered: Seq<char>)
    ensures
        req.adapter_id.deep_view() matches Some(id) ==> (linux_apply(
            req,
            "systemd-resolved"@,
            discovered,
        ) matches PlanView::Run(c, m) && starts_with(c, "resolvectl dns "@ + sh_quoted(id) + " "@)
            && sh_word(sh_quoted(id)) == Some(id) && m == "DNS applied successfully."@),
        req.adapter_id is None ==> (linux_apply(req, "systemd-resolved"@, discovered) matches PlanView::Run(
            c,
            m,
        ) && starts_with(
            c,
            "resolvectl dns "@ + sh_quoted(route_interface(discovered)) + " "@,
        )),
{
    reveal_strlit("systemd-resolved");
    reveal_strlit("networkmanager");
    assert("systemd-resolved"@[0] != "networkmanager"@[0]);
    let iface = match req.adapter_id.deep_view() {
        Some(id) => id,
        None => route_interface(discovered),
    };
    let a = "resolvectl dns "@ + sh_quoted(iface) + " "@;
    let c = a + join(quoted_all(all_servers(req)), " "@);
    assert(c.subrange(0, a.len() as int) =~= a);
    law_sh_quote_round_trip(iface);
}

} // verus!
