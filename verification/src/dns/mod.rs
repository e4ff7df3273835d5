//! Changing the system DNS: checking a request before anything runs, refusing
//! changes the platform cannot make, and reporting how a privileged command
//! went. The per-platform scripts, commands and output parsers live in the
//! submodules; running them happens outside the library.
pub mod linux;
pub mod macos;
pub mod shell;
pub mod trace;
pub mod windows;

use vstd::prelude::*;

use crate::command_runner::{failure_error, failure_message, RunOutput};
use crate::commands::first_some;
use crate::elevation::ElevatedOutcome;
use crate::errors::{error_text, outcome, AppResult};
use crate::models::{
    adapter_views, declined_result, err_result, ok_result, AdapterView, CommandResult,
    DnsApplyRequest, NetworkAdapter, OsKind, PlatformCapabilities,
};
use crate::platform::{detect_os, os_named};
use crate::text::{concat, string_views};
use crate::validation::{
    ipv4_check, ipv6_check, profile_id_check, sanitize_output, sanitized, validate_ipv4,
    validate_ipv6, validate_profile_id,
};

verus! {

/// The check of an optional field that is checked whenever it is present.
pub open spec fn present_check(
    o: Option<Seq<char>>,
    check: spec_fn(Seq<char>) -> Option<Seq<char>>,
) -> Option<Seq<char>> {
    match o {
        Some(s) => check(s),
        None => None,
    }
}

/// The first problem found with an apply request: the primary and secondary
/// IPv4 addresses, the IPv6 addresses and then the profile id are checked in
/// turn.
pub open spec fn apply_request_problem(req: DnsApplyRequest) -> Option<Seq<char>> {
    let checks = seq![
        ipv4_check(req.primary_ipv4@),
        present_check(req.secondary_ipv4.deep_view(), |s| ipv4_check(s)),
        present_check(req.primary_ipv6.deep_view(), |s| ipv6_check(s)),
        present_check(req.secondary_ipv6.deep_view(), |s| ipv6_check(s)),
        profile_id_check(req.profile_id@),
    ];
    first_some(checks, 0)
}

/// Validate the apply request fields before passing them to the OS backend:
/// the first problem found is returned.
pub fn validate_apply_request(req: &DnsApplyRequest) -> (r: AppResult<()>)
    ensures
        outcome(r, apply_request_problem(*req)),
{
    proof {
        reveal_with_fuel(first_some, 6);
    }
    let r = validate_ipv4(req.primary_ipv4.as_str());
    if r.is_err() {
        return r;
    }
    if let Some(s) = &req.secondary_ipv4 {
        let r = validate_ipv4(s.as_str());
        if r.is_err() {
            return r;
        }
    }
    if let Some(s) = &req.primary_ipv6 {
        let r = validate_ipv6(s.as_str());
        if r.is_err() {
            return r;
        }
    }
    if let Some(s) = &req.secondary_ipv6 {
        let r = validate_ipv6(s.as_str());
        if r.is_err() {
            return r;
        }
    }
    validate_profile_id(req.profile_id.as_str())
}

/// Elevation is requested per action by each platform backend through the
/// native prompt, so nothing is refused up front.
pub fn require_elevation(caps: &PlatformCapabilities) -> (r: AppResult<()>)
    ensures
        r is Ok,
{
    Ok(())
}

/// The operating system of the build target, as [`detect_os`] names it.
pub fn current_os(target_os: &str) -> (r: Option<OsKind>)
    ensures
        r == os_named(target_os@),
{
    detect_os(target_os)
}

/// The message of a DNS change the platform or backend cannot make.
pub open spec fn unsupported_change_message() -> Seq<char> {
    "DNS modification is not supported on this platform/backend."@
}

/// The answer to a DNS change (apply or clear) that the capabilities rule out
/// before anything runs; none when the change may go ahead.
pub fn dns_change_gate(caps: &PlatformCapabilities) -> (r: Option<CommandResult>)
    ensures
        caps.supports_ipv4_dns <==> r is None,
        r matches Some(c) ==> err_result(c, unsupported_change_message()),
{
    if !caps.supports_ipv4_dns {
        return Some(
            CommandResult::err("DNS modification is not supported on this platform/backend."),
        );
    }
    None
}

/// The answer to a cache flush the capabilities rule out; none when it may
/// go ahead.
pub fn flush_gate(caps: &PlatformCapabilities) -> (r: Option<CommandResult>)
    ensures
        caps.supports_flush_dns <==> r is None,
        r matches Some(c) ==> err_result(
            c,
            "Flushing DNS cache is not supported on this platform."@,
        ),
{
    if !caps.supports_flush_dns {
        return Some(CommandResult::err("Flushing DNS cache is not supported on this platform."));
    }
    None
}

/// The answer to a DHCP renewal the capabilities rule out; none when it may
/// go ahead.
pub fn dhcp_gate(caps: &PlatformCapabilities) -> (r: Option<CommandResult>)
    ensures
        caps.supports_dhcp_renew <==> r is None,
        r matches Some(c) ==> err_result(c, "DHCP renewal is not supported on this platform."@),
{
    if !caps.supports_dhcp_renew {
        return Some(CommandResult::err("DHCP renewal is not supported on this platform."));
    }
    None
}

/// The error text of a run of `program` that did not succeed: the error of a
/// run that could not happen, or the command error of a failure status; none
/// for a successful run.
pub open spec fn run_failure(program: Seq<char>, run: AppResult<RunOutput>) -> Option<Seq<char>> {
    match run {
        Ok(o) => if o.status == 0 {
            None
        } else {
            Some("Command execution failed: "@ + failure_message(program, o))
        },
        Err(e) => Some(error_text(e)),
    }
}

/// The result of running `program` directly: `ok_msg` on success, else
/// `fail_prefix` followed by the sanitised error text.
pub fn direct_result(
    program: &str,
    run: &AppResult<RunOutput>,
    ok_msg: &str,
    fail_prefix: &str,
) -> (r: CommandResult)
    ensures
        match run_failure(program@, *run) {
            None => ok_result(r, ok_msg@),
            Some(t) => err_result(r, fail_prefix@ + sanitized(t)),
        },
{
    let text = match run {
        Ok(o) => {
            if o.success() {
                return CommandResult::ok(ok_msg);
            }
            failure_error(program, o).message()
        },
        Err(e) => e.message(),
    };
    let m = concat(fail_prefix, sanitize_output(text.as_str()).as_str());
    CommandResult::err(m.as_str())
}

/// The result of a command run through the elevation prompt: `ok_msg` on
/// success, `declined_msg` (asking for approval) when the prompt was
/// dismissed, else `fail_prefix` followed by the outcome's message.
pub fn elevated_result(
    outcome: &ElevatedOutcome,
    ok_msg: &str,
    declined_msg: &str,
    fail_prefix: &str,
) -> (r: CommandResult)
    ensures
        outcome.success ==> ok_result(r, ok_msg@),
        !outcome.success && outcome.cancelled ==> declined_result(r, declined_msg@),
        !outcome.success && !outcome.cancelled ==> err_result(
            r,
            fail_prefix@ + outcome.message@,
        ),
{
    if outcome.success {
        CommandResult::ok(ok_msg)
    } else if outcome.cancelled {
        CommandResult::err_elevation(declined_msg)
    } else {
        CommandResult::err(concat(fail_prefix, outcome.message.as_str()).as_str())
    }
}

/// The result of a DNS cache flush run through `program`.
pub fn cache_flush_result(program: &str, run: &AppResult<RunOutput>) -> (r: CommandResult)
    ensures
        match run_failure(program@, *run) {
            None => ok_result(r, "DNS cache flushed."@),
            Some(t) => err_result(r, "Failed to flush DNS cache: "@ + sanitized(t)),
        },
{
    direct_result(program, run, "DNS cache flushed.", "Failed to flush DNS cache: ")
}

/// The result of a DHCP lease renewal run through `program`.
pub fn dhcp_renew_result(program: &str, run: &AppResult<RunOutput>) -> (r: CommandResult)
    ensures
        match run_failure(program@, *run) {
            None => ok_result(r, "DHCP lease renewed."@),
            Some(t) => err_result(r, "Failed to renew DHCP: "@ + sanitized(t)),
        },
{
    direct_result(program, run, "DHCP lease renewed.", "Failed to renew DHCP: ")
}

/// How a privileged command was run: directly, when the process already has
/// administrator rights, or through the elevation prompt.
#[derive(Debug)]
pub enum PrivilegedRun {
    Direct(AppResult<RunOutput>),
    Elevated(ElevatedOutcome),
}

/// The message of a DNS change whose elevation prompt was dismissed.
pub open spec fn dns_declined_message() -> Seq<char> {
    "Administrator approval was declined, so DNS was not changed."@
}

/// The result of a privileged DNS change run through `program`: a direct run
/// reports failures after "Failed: ", an elevated one after
/// "Failed to change DNS: ".
pub fn dns_change_result(program: &str, run: &PrivilegedRun, ok_msg: &str) -> (r: CommandResult)
    ensures
        match run {
            PrivilegedRun::Direct(d) => match run_failure(program@, *d) {
                None => ok_result(r, ok_msg@),
                Some(t) => err_result(r, "Failed: "@ + sanitized(t)),
            },
            PrivilegedRun::Elevated(o) => {
                &&& o.success ==> ok_result(r, ok_msg@)
                &&& !o.success && o.cancelled ==> declined_result(r, dns_declined_message())
                &&& !o.success && !o.cancelled ==> err_result(
                    r,
                    "Failed to change DNS: "@ + o.message@,
                )
            },
        },
{
    match run {
        PrivilegedRun::Direct(d) => direct_result(program, d, ok_msg, "Failed: "),
        PrivilegedRun::Elevated(o) => elevated_result(
            o,
            ok_msg,
            "Administrator approval was declined, so DNS was not changed.",
            "Failed to change DNS: ",
        ),
    }
}


// ---------------------------------------------------------------------------
// Servers of a request
// ---------------------------------------------------------------------------

/// `[s]` when `o` holds a non-empty `s`, else nothing.
pub open spec fn nonempty_server(o: Option<Seq<char>>) -> Seq<Seq<char>> {
    match o {
        Some(s) => if s.len() > 0 {
            seq![s]
        } else {
            Seq::empty()
        },
        None => Seq::empty(),
    }
}

/// The IPv4 servers of a request: the primary, then the secondary when given.
pub open spec fn ipv4_servers(req: DnsApplyRequest) -> Seq<Seq<char>> {
    seq![req.primary_ipv4@] + nonempty_server(req.secondary_ipv4.deep_view())
}

/// The IPv6 servers of a request: none without a primary, else the primary
/// and the secondary when given.
pub open spec fn ipv6_servers(req: DnsApplyRequest) -> Seq<Seq<char>> {
    let p = nonempty_server(req.primary_ipv6.deep_view());
    if p.len() == 0 {
        p
    } else {
        p + nonempty_server(req.secondary_ipv6.deep_view())
    }
}

/// All servers of a request in order: IPv4 first, then each given IPv6.
pub open spec fn all_servers(req: DnsApplyRequest) -> Seq<Seq<char>> {
    ipv4_servers(req) + nonempty_server(req.primary_ipv6.deep_view()) + nonempty_server(
        req.secondary_ipv6.deep_view(),
    )
}

fn push_nonempty(v: &mut Vec<String>, o: &Option<String>)
    ensures
        string_views(final(v)@) == string_views(old(v)@) + nonempty_server(o.deep_view()),
{
    let ghost before = string_views(v@);
    if let Some(s) = o {
        if !s.as_str().is_empty() {
            v.push(s.clone());
            assert(string_views(v@) =~= before + seq![s@]);
            return;
        }
    }
    assert(string_views(v@) =~= before + nonempty_server(o.deep_view()));
}

/// The IPv4 servers of a request.
pub fn ipv4_server_list(req: &DnsApplyRequest) -> (r: Vec<String>)
    ensures
        string_views(r@) == ipv4_servers(*req),
{
    let mut v: Vec<String> = Vec::new();
    v.push(req.primary_ipv4.clone());
    assert(string_views(v@) =~= seq![req.primary_ipv4@]);
    push_nonempty(&mut v, &req.secondary_ipv4);
    v
}

/// The IPv6 servers of a request.
pub fn ipv6_server_list(req: &DnsApplyRequest) -> (r: Vec<String>)
    ensures
        string_views(r@) == ipv6_servers(*req),
{
    let mut v: Vec<String> = Vec::new();
    assert(string_views(v@) =~= Seq::<Seq<char>>::empty());
    push_nonempty(&mut v, &req.primary_ipv6);
    if v.len() > 0 {
        push_nonempty(&mut v, &req.secondary_ipv6);
    }
    v
}

/// Build the list of DNS servers to apply, in order (IPv4 then IPv6).
pub fn collect_servers(req: &DnsApplyRequest) -> (r: Vec<String>)
    ensures
        string_views(r@) == all_servers(*req),
{
    let mut v = ipv4_server_list(req);
    push_nonempty(&mut v, &req.primary_ipv6);
    push_nonempty(&mut v, &req.secondary_ipv6);
    v
}

// ---------------------------------------------------------------------------
// The primary adapter
// ---------------------------------------------------------------------------

/// Position of the first adapter that is up, or -1.
pub open spec fn first_up(s: Seq<AdapterView>) -> int
    decreases s.len(),
{
    if s.len() == 0 {
        -1
    } else if s[0].is_up {
        0
    } else {
        let r = first_up(s.drop_first());
        if r < 0 {
            -1
        } else {
            r + 1
        }
    }
}

/// `s` with the adapter at `k`, if there is one, marked primary.
pub open spec fn marked_primary(s: Seq<AdapterView>, k: int) -> Seq<AdapterView> {
    if 0 <= k < s.len() {
        s.update(k, AdapterView { is_primary: true, ..s[k] })
    } else {
        s
    }
}

proof fn lemma_first_up(s: Seq<AdapterView>, i: int)
    requires
        0 <= i <= s.len(),
        forall|j: int| 0 <= j < i ==> !(#[trigger] s[j]).is_up,
    ensures
        i < s.len() && s[i].is_up ==> first_up(s) == i,
        i == s.len() ==> first_up(s) == -1,
    decreases i,
{
    if i > 0 {
        lemma_first_up(s.drop_first(), i - 1);
    }
}

fn set_primary(adapters: &mut Vec<NetworkAdapter>, k: usize)
    requires
        k < old(adapters)@.len(),
    ensures
        adapter_views(final(adapters)@) == marked_primary(adapter_views(old(adapters)@), k as int),
{
    let ghost before = adapter_views(adapters@);
    let a = adapters.remove(k);
    let b = NetworkAdapter { is_primary: true, ..a };
    adapters.insert(k, b);
    assert(adapter_views(adapters@) =~= marked_primary(before, k as int));
}

/// Marking the first adapter that is up leaves a single primary adapter, that
/// one, when none was primary before; with no adapter up, none is primary.
pub proof fn law_single_primary(s: Seq<AdapterView>)
    requires
        forall|i: int| 0 <= i < s.len() ==> !(#[trigger] s[i]).is_primary,
    ensures
        ({
            let k = first_up(s);
            let m = marked_primary(s, k);
            &&& m.len() == s.len()
            &&& forall|i: int| 0 <= i < m.len() ==> ((#[trigger] m[i]).is_primary <==> i == k)
            &&& k >= 0 ==> m[k].is_up && forall|j: int| 0 <= j < k ==> !(#[trigger] s[j]).is_up
        }),
{
    lemma_first_up_found(s);
}

proof fn lemma_first_up_found(s: Seq<AdapterView>)
    ensures
        first_up(s) >= -1,
        first_up(s) < s.len(),
        first_up(s) >= 0 ==> s[first_up(s)].is_up && forall|j: int| 0 <= j < first_up(s) ==> !(#[trigger] s[j]).is_up,
    decreases s.len(),
{
    if s.len() > 0 && !s[0].is_up {
        lemma_first_up_found(s.drop_first());
        let r = first_up(s.drop_first());
        assert forall|j: int| 0 <= j < r + 1 implies !(#[trigger] s[j]).is_up by {
            if j > 0 {
                assert(s[j] == s.drop_first()[j - 1]);
            }
        }
        if r >= 0 {
            assert(s.drop_first()[r] == s[r + 1]);
        }
    }
}

/// Mark the first adapter that is up as the primary one.
pub fn mark_first_up_primary(adapters: &mut Vec<NetworkAdapter>)
    ensures
        adapter_views(final(adapters)@) == marked_primary(
            adapter_views(old(adapters)@),
            first_up(adapter_views(old(adapters)@)),
        ),
{
    let n = adapters.len();
    for i in 0..n
        invariant
            n == adapters@.len(),
            *adapters == *old(adapters),
            forall|j: int| 0 <= j < i ==> !(#[trigger] adapter_views(adapters@)[j]).is_up,
    {
        if adapters[i].is_up {
            proof {
                lemma_first_up(adapter_views(adapters@), i as int);
            }
            set_primary(adapters, i);
            return;
        }
    }
    proof {
        lemma_first_up(adapter_views(adapters@), n as int);
    }
}

/// Mark the first adapter, if any, as the primary one.
pub fn mark_first_primary(adapters: &mut Vec<NetworkAdapter>)
    ensures
        adapter_views(final(adapters)@) == marked_primary(adapter_views(old(adapters)@), 0),
{
    if adapters.len() > 0 {
        set_primary(adapters, 0);
    }
}


// ---------------------------------------------------------------------------
// Plans
// ---------------------------------------------------------------------------

/// What a DNS change comes to: a privileged shell command to run, with the
/// message to report when it works, or an answer given at once.
#[derive(Debug)]
pub enum ChangePlan {
    Run(String, String),
    Answer(CommandResult),
}

/// The content of a plan.
pub enum PlanView {
    /// Run the command (first) and report the message (second) on success.
    Run(Seq<char>, Seq<char>),
    /// Refuse with the given failure message.
    Refuse(Seq<char>),
}

/// `p` is the plan `v`.
pub open spec fn plan_is(p: ChangePlan, v: PlanView) -> bool {
    match v {
        PlanView::Run(c, m) => p matches ChangePlan::Run(pc, pm) && pc@ == c && pm@ == m,
        PlanView::Refuse(m) => p matches ChangePlan::Answer(a) && err_result(a, m),
    }
}

/// The program and arguments that run a shell command line.
pub fn shell_command(command: &str) -> (r: Vec<String>)
    ensures
        string_views(r@) == seq!["sh"@, "-c"@, command@],
{
    let r = crate::text::string_vec(&["sh", "-c", command]);
    assert(string_views(r@) =~= seq!["sh"@, "-c"@, command@]);
    r
}

/// The IPv6 servers applied for a request: none without a non-empty primary
/// IPv6; with one, that primary first, followed by the secondary IPv6 when it
/// is given and non-empty, and nothing else.
pub proof fn law_ipv6_servers(req: DnsApplyRequest)
    ensures
        !(req.primary_ipv6.deep_view() matches Some(p) && p.len() > 0) ==> ipv6_servers(req).len()
            == 0,
        (req.primary_ipv6.deep_view() matches Some(p) && p.len() > 0) ==> ({
            let p = req.primary_ipv6.deep_view()->0;
            if req.secondary_ipv6.deep_view() matches Some(q) && q.len() > 0 {
                ipv6_servers(req) == seq![p, req.secondary_ipv6.deep_view()->0]
            } else {
                ipv6_servers(req) == seq![p]
            }
        }),
{
    let p = nonempty_server(req.primary_ipv6.deep_view());
    let q = nonempty_server(req.secondary_ipv6.deep_view());
    if p.len() > 0 {
        if q.len() > 0 {
            assert(ipv6_servers(req) =~= seq![req.primary_ipv6.deep_view()->0, req.secondary_ipv6.deep_view()->0]);
        } else {
            assert(ipv6_servers(req) =~= seq![req.primary_ipv6.deep_view()->0]);
        }
    }
}

} // verus!
