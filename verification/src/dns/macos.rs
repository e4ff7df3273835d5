//! macOS: the network services `networksetup` lists, their DNS servers, and
//! the `networksetup` command lines that set and clear them.
use vstd::prelude::*;

use crate::dns::linux::{nonempty_trimmed, of_family, sorted_into, ServerLists};
use crate::dns::shell::{quote_all, quoted_all, sh_quote, sh_quoted};
use crate::dns::{all_servers, collect_servers, plan_is, ChangePlan, PlanView};
use crate::models::{AdapterView, CommandResult, DnsApplyRequest, NetworkAdapter};
use crate::text::{
    chars_of, concat, contains, has_infix, join, join_strings, lines, lines_of,
    opt_str, opt_view, string_of, string_vec, string_views, trim, trimmed, NestedView,
};

verus! {

/// The command that lists the network services.
pub fn service_listing_command() -> (r: Vec<String>)
    ensures
        string_views(r@) == seq!["networksetup"@, "-listallnetworkservices"@],
{
    let r = string_vec(&["networksetup", "-listallnetworkservices"]);
    assert(string_views(r@) =~= seq!["networksetup"@, "-listallnetworkservices"@]);
    r
}

/// The command that prints the DNS servers of a service.
pub fn dns_servers_command(service: &str) -> (r: Vec<String>)
    ensures
        string_views(r@) == seq!["networksetup"@, "-getdnsservers"@, service@],
{
    let r = string_vec(&["networksetup", "-getdnsservers", service]);
    assert(string_views(r@) =~= seq!["networksetup"@, "-getdnsservers"@, service@]);
    r
}

/// The services of the first `n` listed lines, the header line skipped: the
/// trimmed, non-empty lines that are not the note about disabled services.
pub open spec fn services_of(ls: Seq<Seq<char>>, n: int) -> Seq<Seq<char>>
    decreases n,
{
    if n <= 1 || n > ls.len() {
        Seq::empty()
    } else {
        let r = services_of(ls, n - 1);
        let t = trim(ls[n - 1]);
        if t.len() > 0 && !contains(t, "An asterisk"@) {
            r.push(t)
        } else {
            r
        }
    }
}

/// The services `networksetup -listallnetworkservices` lists: every line
/// after the first, trimmed, without empty lines and the note about
/// disabled services.
pub open spec fn listed_services(stdout: Seq<char>) -> Seq<Seq<char>> {
    let ls = lines(stdout);
    services_of(ls, ls.len() as int)
}

/// Read the service names of the listing.
pub fn service_names(stdout: &str) -> (r: Vec<String>)
    ensures
        string_views(r@) == listed_services(stdout@),
{
    let v = chars_of(stdout);
    let ls = lines_of(&v);
    let n = ls.len();
    let note = chars_of("An asterisk");
    let mut r: Vec<String> = Vec::new();
    if n == 0 {
        return r;
    }
    assert(string_views(r@) =~= services_of(ls.views(), 1));
    for i in 1..n
        invariant
            n == ls@.len(),
            ls.views() == lines(stdout@),
            note@ == "An asterisk"@,
            string_views(r@) == services_of(ls.views(), i as int),
    {
        assert(ls.views()[i as int] == ls@[i as int]@);
        let t = trimmed(&ls[i]);
        let ghost before = string_views(r@);
        if t.len() > 0 && !has_infix(&t, &note) {
            r.push(string_of(&t));
            assert(string_views(r@) =~= before.push(t@));
        }
    }
    r
}

/// The servers `networksetup -getdnsservers` prints: its trimmed, non-empty
/// lines.
pub open spec fn printed_servers(stdout: Seq<char>) -> Seq<Seq<char>> {
    nonempty_trimmed(lines(stdout))
}

/// The adapter of a service, given what `networksetup` printed of its servers.
pub open spec fn service_adapter(name: Seq<char>, dns_stdout: Seq<char>) -> AdapterView {
    let s = printed_servers(dns_stdout);
    AdapterView {
        id: name,
        name: name,
        description: Some(name),
        is_up: true,
        is_primary: false,
        ipv4_dns: of_family(s, false),
        ipv6_dns: of_family(s, true),
    }
}

/// Build the adapter of a service from the output of
/// `networksetup -getdnsservers`.
pub fn macos_adapter(name: &str, dns_stdout: &str) -> (r: NetworkAdapter)
    ensures
        r@ == service_adapter(name@, dns_stdout@),
{
    let v = chars_of(dns_stdout);
    let ls = lines_of(&v);
    let n = ls.len();
    let mut l = ServerLists { ipv4: Vec::new(), ipv6: Vec::new() };
    assert(string_views(l.ipv4@) =~= Seq::<Seq<char>>::empty());
    assert(string_views(l.ipv6@) =~= Seq::<Seq<char>>::empty());
    for i in 0..n
        invariant
            n == ls@.len(),
            ls.views() == lines(dns_stdout@),
            sorted_into(l, nonempty_trimmed(ls.views().take(i as int))),
    {
        assert(ls.views().take(i + 1).drop_last() =~= ls.views().take(i as int));
        assert(ls.views().take(i + 1).last() == ls@[i as int]@);
        let t = trimmed(&ls[i]);
        if t.len() > 0 {
            let ghost before = nonempty_trimmed(ls.views().take(i as int));
            crate::dns::linux::add_server(&mut l, t, Ghost(before));
        }
    }
    assert(ls.views().take(n as int) =~= ls.views());
    let a = NetworkAdapter {
        id: name.to_owned(),
        name: name.to_owned(),
        description: Some(name.to_owned()),
        is_up: true,
        is_primary: false,
        ipv4_dns: l.ipv4,
        ipv6_dns: l.ipv6,
    };
    assert(a@.ipv4_dns =~= string_views(a.ipv4_dns@));
    assert(a@.ipv6_dns =~= string_views(a.ipv6_dns@));
    a
}

/// One `networksetup -setdnsservers` step per service, joined with `&&`;
/// each step sets the given argument text.
pub open spec fn per_service(services: Seq<Seq<char>>, args: Seq<char>) -> Seq<char> {
    join(
        Seq::new(services.len(), |i: int| "networksetup -setdnsservers "@ + sh_quoted(services[i]) + " "@ + args),
        " && "@,
    )
}

fn per_service_command(services: &[String], args: &str) -> (r: String)
    ensures
        r@ == per_service(string_views(services@), args@),
{
    let n = services.len();
    let ghost want = Seq::new(
        n as nat,
        |i: int| "networksetup -setdnsservers "@ + sh_quoted(string_views(services@)[i]) + " "@ + args@,
    );
    let mut steps: Vec<String> = Vec::new();
    for i in 0..n
        invariant
            n == services@.len(),
            want == Seq::new(
                n as nat,
                |i: int| "networksetup -setdnsservers "@ + sh_quoted(string_views(services@)[i]) + " "@ + args@,
            ),
            string_views(steps@) == want.take(i as int),
    {
        let a = concat("networksetup -setdnsservers ", sh_quote(services[i].as_str()).as_str());
        let b = concat(a.as_str(), " ");
        let step = concat(b.as_str(), args);
        assert(step@ == want[i as int]);
        let ghost before = string_views(steps@);
        let ghost sv = step@;
        steps.push(step);
        assert(string_views(steps@) =~= before.push(sv));
        assert(string_views(steps@) =~= want.take(i + 1));
    }
    assert(want.take(n as int) =~= want);
    join_strings(&steps, " && ")
}

/// Build one combined shell command that applies DNS to every service.
pub fn build_apply_command(services: &[String], servers: &[String]) -> (r: String)
    ensures
        r@ == per_service(string_views(services@), join(quoted_all(string_views(servers@)), " "@)),
{
    let args = join_strings(&quote_all(servers), " ");
    per_service_command(services, args.as_str())
}

/// Build one combined shell command that clears DNS on every service.
pub fn build_clear_command(services: &[String]) -> (r: String)
    ensures
        r@ == per_service(string_views(services@), "empty"@),
{
    per_service_command(services, "empty")
}

/// The services a change targets: the named one, or every listed service.
pub open spec fn target_services(adapter_id: Option<Seq<char>>, listed: Seq<Seq<char>>) -> Seq<Seq<char>> {
    match adapter_id {
        Some(id) => seq![id],
        None => listed,
    }
}

fn targets(adapter_id: Option<&str>, listed: &[String]) -> (r: Vec<String>)
    ensures
        string_views(r@) == target_services(opt_view(adapter_id), string_views(listed@)),
{
    let mut r: Vec<String> = Vec::new();
    match adapter_id {
        Some(id) => {
            r.push(id.to_owned());
            assert(string_views(r@) =~= seq![id@]);
        },
        None => {
            let n = listed.len();
            for i in 0..n
                invariant
                    n == listed@.len(),
                    string_views(r@) == string_views(listed@).take(i as int),
            {
                let ghost before = string_views(r@);
                r.push(listed[i].clone());
                assert(string_views(r@) =~= before.push(listed@[i as int]@));
                assert(string_views(r@) =~= string_views(listed@).take(i + 1));
            }
            assert(string_views(listed@).take(n as int) =~= string_views(listed@));
        },
    }
    r
}

/// What applying a request comes to on macOS, given the listed services
/// (used when no service is named).
pub open spec fn macos_apply(req: DnsApplyRequest, listed: Seq<Seq<char>>) -> PlanView {
    let services = target_services(req.adapter_id.deep_view(), listed);
    if services.len() == 0 {
        PlanView::Refuse("No network services available to configure."@)
    } else {
        PlanView::Run(
            per_service(services, join(quoted_all(all_servers(req)), " "@)),
            "DNS applied successfully."@,
        )
    }
}


/// Build the privileged command that applies a request on macOS.
pub fn macos_apply_plan(req: &DnsApplyRequest, listed: &[String]) -> (r: ChangePlan)
    ensures
        plan_is(r, macos_apply(*req, string_views(listed@))),
{
    let services = targets(opt_str(&req.adapter_id), listed);
    if services.len() == 0 {
        return ChangePlan::Answer(CommandResult::err("No network services available to configure."));
    }
    let servers = collect_servers(req);
    ChangePlan::Run(build_apply_command(&services, &servers), "DNS applied successfully.".to_owned())
}

/// What clearing DNS comes to on macOS, given the listed services (used when
/// no service is named).
pub open spec fn macos_clear(adapter_id: Option<Seq<char>>, listed: Seq<Seq<char>>) -> PlanView {
    let services = target_services(adapter_id, listed);
    if services.len() == 0 {
        PlanView::Refuse("No network services available to configure."@)
    } else {
        PlanView::Run(per_service(services, "empty"@), "DNS cleared and reset to automatic."@)
    }
}

/// Build the privileged command that clears DNS on macOS.
pub fn macos_clear_plan(adapter_id: Option<&str>, listed: &[String]) -> (r: ChangePlan)
    ensures
        plan_is(r, macos_clear(opt_view(adapter_id), string_views(listed@))),
{
    let services = targets(adapter_id, listed);
    if services.len() == 0 {
        return ChangePlan::Answer(CommandResult::err("No network services available to configure."));
    }
    ChangePlan::Run(build_clear_command(&services), "DNS cleared and reset to automatic.".to_owned())
}

/// The command that flushes the DNS cache (mDNSResponder).
pub fn flush_command() -> (r: Vec<String>)
    ensures
        string_views(r@) == seq!["killall"@, "-HUP"@, "mDNSResponder"@],
{
    let r = string_vec(&["killall", "-HUP", "mDNSResponder"]);
    assert(string_views(r@) =~= seq!["killall"@, "-HUP"@, "mDNSResponder"@]);
    r
}

/// The command that renews the DHCP lease of the primary interface.
pub fn renew_command() -> (r: Vec<String>)
    ensures
        string_views(r@) == seq!["ipconfig"@, "set"@, "en0"@, "DHCP"@],
{
    let r = string_vec(&["ipconfig", "set", "en0", "DHCP"]);
    assert(string_views(r@) =~= seq!["ipconfig"@, "set"@, "en0"@, "DHCP"@]);
    r
}

} // verus!
