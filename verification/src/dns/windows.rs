//! Windows: PowerShell scripts that set and reset adapter DNS, the adapter
//! listing they read, and the results of the related commands.
use vstd::prelude::*;

use crate::command_runner::RunOutput;
use crate::dns::{
    direct_result, elevated_result, first_up, ipv4_server_list, ipv4_servers, ipv6_server_list,
    ipv6_servers, marked_primary, mark_first_up_primary, run_failure, PrivilegedRun,
};
use crate::models::{
    adapter_views, declined_result, err_result, ok_result, AdapterView, CommandResult,
    DnsApplyRequest, NetworkAdapter, OsKind,
};
use crate::text::{
    ascii_lower, ascii_lowered, chars_of, concat, contains, has_infix, join, lines, lines_of, same,
    opt_str, opt_view, split, split_on, string_of, string_vec, string_views, trim, trimmed,
    NestedView,
};
use crate::validation::sanitized;

verus! {

// ---------------------------------------------------------------------------
// Adapter listing
// ---------------------------------------------------------------------------

/// The PowerShell script that lists the adapters that are up or disconnected,
/// one line each: `guid|name|up|ipv4 servers|ipv6 servers`, servers joined
/// by commas.
pub open spec fn adapter_listing_script() -> Seq<char> {
    "$adapters = Get-NetAdapter -ErrorAction SilentlyContinue | Where-Object { $_.Status -eq 'Up' -or $_.Status -eq 'Disconnected' }\nforeach ($a in $adapters) {\n    $dns = Get-DnsClientServerAddress -InterfaceIndex $a.ifIndex -ErrorAction SilentlyContinue\n    $v4 = @($dns | Where-Object { $_.AddressFamily -eq 2 } | Select-Object -ExpandProperty ServerAddresses) -join ','\n    $v6 = @($dns | Where-Object { $_.AddressFamily -eq 23 } | Select-Object -ExpandProperty ServerAddresses) -join ','\n    $up = if ($a.Status -eq 'Up') { 'true' } else { 'false' }\n    Write-Output (\"{0}|{1}|{2}|{3}|{4}\" -f $a.InterfaceGuid, $a.Name, $up, $v4, $v6)\n}\n"@
}

/// The program and arguments that run a PowerShell script.
pub fn powershell_command(script: &str) -> (r: Vec<String>)
    ensures
        string_views(r@) == seq!["powershell"@, "-NoProfile"@, "-NonInteractive"@, "-Command"@, script@],
{
    let r = string_vec(&["powershell", "-NoProfile", "-NonInteractive", "-Command", script]);
    assert(string_views(r@) =~= seq!["powershell"@, "-NoProfile"@, "-NonInteractive"@, "-Command"@, script@]);
    r
}

/// The command that lists the adapters and their DNS servers.
pub fn adapter_listing_command() -> (r: Vec<String>)
    ensures
        string_views(r@) == seq!["powershell"@, "-NoProfile"@, "-NonInteractive"@, "-Command"@, adapter_listing_script()],
{
    powershell_command(
        "$adapters = Get-NetAdapter -ErrorAction SilentlyContinue | Where-Object { $_.Status -eq 'Up' -or $_.Status -eq 'Disconnected' }\nforeach ($a in $adapters) {\n    $dns = Get-DnsClientServerAddress -InterfaceIndex $a.ifIndex -ErrorAction SilentlyContinue\n    $v4 = @($dns | Where-Object { $_.AddressFamily -eq 2 } | Select-Object -ExpandProperty ServerAddresses) -join ','\n    $v6 = @($dns | Where-Object { $_.AddressFamily -eq 23 } | Select-Object -ExpandProperty ServerAddresses) -join ','\n    $up = if ($a.Status -eq 'Up') { 'true' } else { 'false' }\n    Write-Output (\"{0}|{1}|{2}|{3}|{4}\" -f $a.InterfaceGuid, $a.Name, $up, $v4, $v6)\n}\n",
    )
}

/// The non-empty pieces of `p`, each trimmed.
pub open spec fn kept_trimmed(p: Seq<Seq<char>>) -> Seq<Seq<char>>
    decreases p.len(),
{
    if p.len() == 0 {
        Seq::empty()
    } else {
        let r = kept_trimmed(p.drop_last());
        if p.last().len() > 0 {
            r.push(trim(p.last()))
        } else {
            r
        }
    }
}

/// The servers of a comma-separated field.
pub open spec fn server_field(f: Seq<char>) -> Seq<Seq<char>> {
    kept_trimmed(split_on(f, ','))
}

/// The adapter a listing line stands for: a trimmed, non-empty line of at
/// least five `|`-separated fields; the guid is also its description, and it
/// is up when the third field reads `true` in any case.
pub open spec fn listing_adapter(line: Seq<char>) -> Option<AdapterView> {
    let t = trim(line);
    let p = split_on(t, '|');
    if t.len() == 0 || p.len() < 5 {
        None
    } else {
        Some(
            AdapterView {
                id: p[0],
                name: p[1],
                description: Some(p[0]),
                is_up: ascii_lower(p[2]) == "true"@,
                is_primary: false,
                ipv4_dns: server_field(p[3]),
                ipv6_dns: server_field(p[4]),
            },
        )
    }
}

/// The adapters of the first `n` listing lines.
pub open spec fn listing_adapters(ls: Seq<Seq<char>>, n: int) -> Seq<AdapterView>
    decreases n,
{
    if n <= 0 || n > ls.len() {
        Seq::empty()
    } else {
        let r = listing_adapters(ls, n - 1);
        match listing_adapter(ls[n - 1]) {
            Some(a) => r.push(a),
            None => r,
        }
    }
}

/// The adapters of a listing, the first that is up marked primary.
pub open spec fn listed_adapters(stdout: Seq<char>) -> Seq<AdapterView> {
    let ls = lines(stdout);
    let a = listing_adapters(ls, ls.len() as int);
    marked_primary(a, first_up(a))
}

fn server_list(f: &Vec<char>) -> (r: Vec<String>)
    ensures
        string_views(r@) == server_field(f@),
{
    let p = split(f, ',');
    let n = p.len();
    let mut r: Vec<String> = Vec::new();
    for i in 0..n
        invariant
            n == p@.len(),
            p.views() == split_on(f@, ','),
            string_views(r@) == kept_trimmed(p.views().take(i as int)),
    {
        assert(p.views().take(i + 1).drop_last() =~= p.views().take(i as int));
        assert(p.views().take(i + 1).last() == p@[i as int]@);
        let ghost before = string_views(r@);
        if p[i].len() > 0 {
            r.push(string_of(&trimmed(&p[i])));
            assert(string_views(r@) =~= before.push(trim(p@[i as int]@)));
        }
    }
    assert(p.views().take(n as int) =~= p.views());
    r
}

fn adapter_of_line(line: &Vec<char>) -> (r: Option<NetworkAdapter>)
    ensures
        match r {
            Some(a) => listing_adapter(line@) == Some(a@),
            None => listing_adapter(line@) is None,
        },
{
    let t = trimmed(line);
    let p = split(&t, '|');
    if t.len() == 0 || p.len() < 5 {
        return None;
    }
    assert(forall|i: int| 0 <= i < 5 ==> p.views()[i] == p@[i]@);
    let id = string_of(&p[0]);
    let up_text = ascii_lowered(&p[2]);
    let is_up = same(&up_text, &chars_of("true"));
    let a = NetworkAdapter {
        id: id.clone(),
        name: string_of(&p[1]),
        description: Some(id),
        is_up,
        is_primary: false,
        ipv4_dns: server_list(&p[3]),
        ipv6_dns: server_list(&p[4]),
    };
    assert(a@.ipv4_dns =~= string_views(a.ipv4_dns@));
    assert(a@.ipv6_dns =~= string_views(a.ipv6_dns@));
    Some(a)
}

/// Read the adapter listing; the first adapter that is up is the primary one.
pub fn parse_adapter_listing(stdout: &str) -> (r: Vec<NetworkAdapter>)
    ensures
        adapter_views(r@) == listed_adapters(stdout@),
{
    let v = chars_of(stdout);
    let ls = lines_of(&v);
    let n = ls.len();
    let mut adapters: Vec<NetworkAdapter> = Vec::new();
    for i in 0..n
        invariant
            n == ls@.len(),
            ls.views() == lines(stdout@),
            adapter_views(adapters@) == listing_adapters(ls.views(), i as int),
    {
        assert(ls.views()[i as int] == ls@[i as int]@);
        match adapter_of_line(&ls[i]) {
            Some(a) => {
                adapters.push(a);
            },
            None => {},
        }
        assert(adapter_views(adapters@) =~= listing_adapters(ls.views(), i + 1));
    }
    mark_first_up_primary(&mut adapters);
    adapters
}

/// The adapters of a listing run: none when the listing failed.
pub fn windows_adapters(out: &RunOutput) -> (r: Vec<NetworkAdapter>)
    ensures
        out.status != 0 ==> r@.len() == 0,
        out.status == 0 ==> adapter_views(r@) == listed_adapters(out.stdout@),
{
    if !out.success() {
        return Vec::new();
    }
    parse_adapter_listing(out.stdout.as_str())
}

// ---------------------------------------------------------------------------
// Scripts
// ---------------------------------------------------------------------------

/// The PowerShell expression for the interface indexes of the target
/// adapter, or of every adapter that is up.
pub open spec fn interface_filter_text(adapter_id: Option<Seq<char>>) -> Seq<char> {
    match adapter_id {
        Some(id) => "(Get-NetAdapter | Where-Object { $_.InterfaceGuid -eq '"@ + id
            + "' }).ifIndex"@,
        None => "(Get-NetAdapter | Where-Object Status -eq 'Up').ifIndex"@,
    }
}


/// Build the PowerShell filter for the target adapter(s).
pub fn interface_filter(adapter_id: Option<&str>) -> (r: String)
    ensures
        r@ == interface_filter_text(opt_view(adapter_id)),
{
    match adapter_id {
        Some(id) => {
            let a = concat("(Get-NetAdapter | Where-Object { $_.InterfaceGuid -eq '", id);
            concat(a.as_str(), "' }).ifIndex")
        },
        None => "(Get-NetAdapter | Where-Object Status -eq 'Up').ifIndex".to_owned(),
    }
}

/// Each server in double quotes.
pub open spec fn quoted_servers(s: Seq<Seq<char>>) -> Seq<Seq<char>> {
    Seq::new(s.len(), |i: int| "\""@ + s[i] + "\""@)
}

/// Join servers into a quoted, comma-separated PowerShell list.
pub fn join_servers(servers: &[String]) -> (r: String)
    ensures
        r@ == join(quoted_servers(string_views(servers@)), ","@),
{
    let n = servers.len();
    let mut quoted: Vec<String> = Vec::new();
    for i in 0..n
        invariant
            n == servers@.len(),
            string_views(quoted@) == quoted_servers(string_views(servers@)).take(i as int),
    {
        let a = concat("\"", servers[i].as_str());
        let q = concat(a.as_str(), "\"");
        assert(string_views(servers@)[i as int] == servers@[i as int]@);
        assert(q@ == quoted_servers(string_views(servers@))[i as int]);
        let ghost before = string_views(quoted@);
        let ghost qv = q@;
        quoted.push(q);
        assert(string_views(quoted@) =~= before.push(qv));
        assert(string_views(quoted@) =~= quoted_servers(string_views(servers@)).take(i + 1));
    }
    assert(quoted_servers(string_views(servers@)).take(n as int) =~= quoted_servers(
        string_views(servers@),
    ));
    crate::text::join_strings(&quoted, ",")
}

/// One `Set-DnsClientServerAddress` loop over the chosen interfaces.
pub open spec fn set_servers_step(servers: Seq<Seq<char>>) -> Seq<char> {
    "foreach ($idx in $indexes) { Set-DnsClientServerAddress -InterfaceIndex $idx -ServerAddresses "@
        + join(quoted_servers(servers), ","@) + " -ErrorAction Stop }"@
}

/// The script head: choose the interfaces, or fail when there is none.
pub open spec fn script_head(adapter_id: Option<Seq<char>>) -> Seq<char> {
    "$indexes = "@ + interface_filter_text(adapter_id)
        + "\nif (-not $indexes) { throw 'No matching network adapter found.' }\n"@
}

/// The script that applies a request: its IPv4 servers, then its IPv6
/// servers when it has any.
pub open spec fn apply_script(req: DnsApplyRequest) -> Seq<char> {
    let v6 = ipv6_servers(req);
    script_head(req.adapter_id.deep_view()) + set_servers_step(ipv4_servers(req)) + if v6.len()
        > 0 {
        "\n"@ + set_servers_step(v6)
    } else {
        Seq::empty()
    }
}

fn set_servers_text(servers: &[String]) -> (r: String)
    ensures
        r@ == set_servers_step(string_views(servers@)),
{
    let a = concat(
        "foreach ($idx in $indexes) { Set-DnsClientServerAddress -InterfaceIndex $idx -ServerAddresses ",
        join_servers(servers).as_str(),
    );
    concat(a.as_str(), " -ErrorAction Stop }")
}

fn head_text(adapter_id: Option<&str>) -> (r: String)
    ensures
        r@ == script_head(opt_view(adapter_id)),
{
    let a = concat("$indexes = ", interface_filter(adapter_id).as_str());
    concat(a.as_str(), "\nif (-not $indexes) { throw 'No matching network adapter found.' }\n")
}


/// Build the full PowerShell script that applies IPv4 (and optional IPv6)
/// DNS. The addresses are checked beforehand by `validate_apply_request`.
pub fn build_apply_script(req: &DnsApplyRequest) -> (r: String)
    ensures
        r@ == apply_script(*req),
{
    let v4 = ipv4_server_list(req);
    let v6 = ipv6_server_list(req);
    let head = head_text(opt_str(&req.adapter_id));
    let mut script = concat(head.as_str(), set_servers_text(&v4).as_str());
    if v6.len() > 0 {
        let tail = concat("\n", set_servers_text(&v6).as_str());
        script.append(tail.as_str());
    } else {
        assert(script@ + Seq::<char>::empty() =~= script@);
    }
    script
}

/// The script that resets the chosen adapters' DNS to DHCP.
pub open spec fn clear_script(adapter_id: Option<Seq<char>>) -> Seq<char> {
    script_head(adapter_id)
        + "foreach ($idx in $indexes) { Set-DnsClientServerAddress -InterfaceIndex $idx -ResetServerAddresses -ErrorAction Stop }"@
}

/// Build the PowerShell script that resets DNS to DHCP.
pub fn build_clear_script(adapter_id: Option<&str>) -> (r: String)
    ensures
        r@ == clear_script(opt_view(adapter_id)),
{
    let head = head_text(adapter_id);
    concat(
        head.as_str(),
        "foreach ($idx in $indexes) { Set-DnsClientServerAddress -InterfaceIndex $idx -ResetServerAddresses -ErrorAction Stop }",
    )
}

/// The script that disables and re-enables the adapter with the given guid.
pub open spec fn reset_script(adapter_id: Seq<char>) -> Seq<char> {
    "$a = Get-NetAdapter -ErrorAction Stop | Where-Object { $_.InterfaceGuid -eq '"@ + adapter_id
        + "' }\nif (-not $a) { throw 'No matching network adapter found.' }\nDisable-NetAdapter -Name $a.Name -Confirm:$false\nStart-Sleep -Seconds 2\nEnable-NetAdapter -Name $a.Name -Confirm:$false"@
}

/// Build the script that resets (disables, then enables) an adapter.
pub fn build_reset_script(adapter_id: &str) -> (r: String)
    ensures
        r@ == reset_script(adapter_id@),
{
    let a = concat(
        "$a = Get-NetAdapter -ErrorAction Stop | Where-Object { $_.InterfaceGuid -eq '",
        adapter_id,
    );
    concat(
        a.as_str(),
        "' }\nif (-not $a) { throw 'No matching network adapter found.' }\nDisable-NetAdapter -Name $a.Name -Confirm:$false\nStart-Sleep -Seconds 2\nEnable-NetAdapter -Name $a.Name -Confirm:$false",
    )
}

// ---------------------------------------------------------------------------
// Results
// ---------------------------------------------------------------------------

/// The result of an adapter reset run through PowerShell.
pub fn adapter_reset_result(run: &PrivilegedRun) -> (r: CommandResult)
    ensures
        match run {
            PrivilegedRun::Direct(d) => match run_failure("powershell"@, *d) {
                None => ok_result(r, "Adapter reset successfully."@),
                Some(t) => err_result(r, "Failed to reset adapter: "@ + sanitized(t)),
            },
            PrivilegedRun::Elevated(o) => {
                &&& o.success ==> ok_result(r, "Adapter reset successfully."@)
                &&& !o.success && o.cancelled ==> declined_result(
                    r,
                    "Administrator approval was declined, so the adapter was not reset."@,
                )
                &&& !o.success && !o.cancelled ==> err_result(
                    r,
                    "Failed to reset adapter: "@ + o.message@,
                )
            },
        },
{
    match run {
        PrivilegedRun::Direct(d) => direct_result(
            "powershell",
            d,
            "Adapter reset successfully.",
            "Failed to reset adapter: ",
        ),
        PrivilegedRun::Elevated(o) => elevated_result(
            o,
            "Adapter reset successfully.",
            "Administrator approval was declined, so the adapter was not reset.",
            "Failed to reset adapter: ",
        ),
    }
}

/// The answer to an adapter reset on a platform other than Windows, where
/// it is not supported; none on Windows.
pub fn adapter_reset_gate(os: OsKind) -> (r: Option<CommandResult>)
    ensures
        os == OsKind::Windows <==> r is None,
        r matches Some(c) ==> err_result(c, "Adapter reset is only supported on Windows."@),
{
    match os {
        OsKind::Windows => None,
        _ => Some(CommandResult::err("Adapter reset is only supported on Windows.")),
    }
}

/// The command that flushes the DNS resolver cache.
pub fn flush_command() -> (r: Vec<String>)
    ensures
        string_views(r@) == seq!["ipconfig"@, "/flushdns"@],
{
    let r = string_vec(&["ipconfig", "/flushdns"]);
    assert(string_views(r@) =~= seq!["ipconfig"@, "/flushdns"@]);
    r
}

/// The command that renews the DHCP leases of every adapter.
pub fn renew_command() -> (r: Vec<String>)
    ensures
        string_views(r@) == seq!["ipconfig"@, "/renew"@],
{
    let r = string_vec(&["ipconfig", "/renew"]);
    assert(string_views(r@) =~= seq!["ipconfig"@, "/renew"@]);
    r
}

// ---------------------------------------------------------------------------
// Tunnel adapters
// ---------------------------------------------------------------------------

/// The name, in ASCII lower case, mentions a VPN or tunnel keyword.
pub open spec fn vpn_tun_name(name: Seq<char>) -> bool {
    let l = ascii_lower(name);
    ||| contains(l, "tun"@)
    ||| contains(l, "tap"@)
    ||| contains(l, "wireguard"@)
    ||| contains(l, "wg"@)
    ||| contains(l, "v2ray"@)
    ||| contains(l, "sing-box"@)
    ||| contains(l, "clash"@)
    ||| contains(l, "wintun"@)
    ||| contains(l, "openvpn"@)
}

/// Check whether a network adapter name or description indicates it is a
/// VPN, TUN, TAP, or other virtual tunnel interface. These adapters often
/// have different routing behavior and may lack a traditional layer-3
/// address, so callers should handle them gracefully.
pub fn is_vpn_tun_adapter(name: &str) -> (r: bool)
    ensures
        r == vpn_tun_name(name@),
{
    let l = ascii_lowered(&chars_of(name));
    has_infix(&l, &chars_of("tun")) || has_infix(&l, &chars_of("tap")) || has_infix(
        &l,
        &chars_of("wireguard"),
    ) || has_infix(&l, &chars_of("wg")) || has_infix(&l, &chars_of("v2ray")) || has_infix(
        &l,
        &chars_of("sing-box"),
    ) || has_infix(&l, &chars_of("clash")) || has_infix(&l, &chars_of("wintun")) || has_infix(
        &l,
        &chars_of("openvpn"),
    )
}


/// Tunnel detection ignores ASCII case: names that differ only in the case
/// of ASCII letters are judged alike.
pub proof fn law_vpn_detection_ignores_case(a: Seq<char>, b: Seq<char>)
    requires
        ascii_lower(a) == ascii_lower(b),
    ensures
        vpn_tun_name(a) == vpn_tun_name(b),
{
}

} // verus!
