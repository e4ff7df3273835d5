use sparkdns::dns::linux::{listing_source, ListingSource};
use sparkdns::dns::windows::{adapter_reset_gate, flush_command, renew_command};
use sparkdns::dns::linux::{connection_dns_command, connection_listing_command, connection_up_command, resolvectl_status_command};
use sparkdns::command_runner::RunOutput;
use sparkdns::dns::linux::{
    active_connections, apply_discovery_command, clear_discovery_command, default_route_interface,
    flush_command as linux_flush_command, flush_result as linux_flush_result, linux_apply_plan,
    linux_clear_plan, nm_adapter, nm_dns_servers, parse_nm_connections, parse_resolv_conf,
    parse_resolvectl_status, renew_summary, renew_without_nmcli,
};
use sparkdns::dns::macos::{
    build_apply_command, build_clear_command, macos_adapter, macos_apply_plan, macos_clear_plan,
    service_names,
};
use sparkdns::dns::shell::sh_quote;
use sparkdns::dns::trace::{
    is_float_token, parse_traceroute, parse_tracert, raw_output_fits, traceroute_command,
    traceroute_result,
};
use sparkdns::dns::windows::{
    adapter_reset_result, build_apply_script, build_clear_script, build_reset_script,
    is_vpn_tun_adapter, join_servers, parse_adapter_listing, windows_adapters,
};
use sparkdns::dns::{
    cache_flush_result, collect_servers, dhcp_gate, dns_change_gate, dns_change_result,
    validate_apply_request, ChangePlan, PrivilegedRun,
};
use sparkdns::elevation::ElevatedOutcome;
use sparkdns::errors::AppError;
use sparkdns::models::{DnsApplyRequest, OsKind};
use sparkdns::platform::detect_capabilities;

fn req(adapter: Option<&str>, p4: &str, s4: Option<&str>, p6: Option<&str>) -> DnsApplyRequest {
    DnsApplyRequest {
        profile_id: "p".into(),
        adapter_id: adapter.map(|s| s.to_string()),
        primary_ipv4: p4.into(),
        secondary_ipv4: s4.map(|s| s.to_string()),
        primary_ipv6: p6.map(|s| s.to_string()),
        secondary_ipv6: None,
        enable_doh: false,
    }
}

fn out(status: i32, stdout: &str, stderr: &str) -> RunOutput {
    RunOutput { status, stdout: stdout.to_string(), stderr: stderr.to_string() }
}

fn run_of(plan: ChangePlan) -> (String, String) {
    match plan {
        ChangePlan::Run(c, m) => (c, m),
        ChangePlan::Answer(a) => panic!("unexpected answer {a:?}"),
    }
}

fn answer_of(plan: ChangePlan) -> String {
    match plan {
        ChangePlan::Answer(a) => {
            assert!(!a.ok);
            a.message
        }
        ChangePlan::Run(c, _) => panic!("unexpected command {c}"),
    }
}

#[test]
fn test_validate_apply_request_valid() {
    let req = DnsApplyRequest {
        profile_id: "test_profile".to_string(),
        adapter_id: None,
        primary_ipv4: "1.1.1.1".to_string(),
        secondary_ipv4: Some("1.0.0.1".to_string()),
        primary_ipv6: None,
        secondary_ipv6: None,
        enable_doh: false,
    };
    assert!(validate_apply_request(&req).is_ok());
}

#[test]
fn test_validate_apply_request_invalid_ip() {
    let req = DnsApplyRequest {
        profile_id: "test_profile".to_string(),
        adapter_id: None,
        primary_ipv4: "not-an-ip".to_string(),
        secondary_ipv4: None,
        primary_ipv6: None,
        secondary_ipv6: None,
        enable_doh: false,
    };
    assert!(validate_apply_request(&req).is_err());
}

#[test]
fn test_validate_apply_request_invalid_profile_id() {
    let req = DnsApplyRequest {
        profile_id: "has spaces".to_string(),
        adapter_id: None,
        primary_ipv4: "1.1.1.1".to_string(),
        secondary_ipv4: None,
        primary_ipv6: None,
        secondary_ipv6: None,
        enable_doh: false,
    };
    assert!(validate_apply_request(&req).is_err());
}

#[test]
fn validate_apply_request_reports_first_problem() {
    let mut r = req(None, "1.1.1.1", Some(""), Some("nope"));
    r.profile_id = "bad id".into();
    match validate_apply_request(&r) {
        Err(AppError::Validation(m)) => assert_eq!(m, "Invalid IPv4 address: "),
        other => panic!("unexpected {other:?}"),
    }
    r.secondary_ipv4 = None;
    match validate_apply_request(&r) {
        Err(AppError::Validation(m)) => assert_eq!(m, "Invalid IPv6 address: nope"),
        other => panic!("unexpected {other:?}"),
    }
    r.primary_ipv6 = None;
    match validate_apply_request(&r) {
        Err(AppError::Validation(m)) => {
            assert_eq!(m, "Profile id may only contain alphanumeric, dash, underscore")
        }
        other => panic!("unexpected {other:?}"),
    }
}

#[test]
fn apply_script_includes_primary_and_secondary() {
    let script = build_apply_script(&req(Some("GUID-1"), "1.1.1.1", Some("1.0.0.1"), None));
    assert!(script.contains("\"1.1.1.1\",\"1.0.0.1\""));
    assert!(script.contains("InterfaceGuid -eq 'GUID-1'"));
    assert!(script.contains("Set-DnsClientServerAddress"));
    assert!(script.contains("throw"));
}

#[test]
fn apply_script_adds_ipv6_block_when_present() {
    let script = build_apply_script(&req(None, "8.8.8.8", None, Some("2001:4860:4860::8888")));
    assert!(script.contains("\"8.8.8.8\""));
    assert!(script.contains("\"2001:4860:4860::8888\""));
    assert_eq!(script.matches("Set-DnsClientServerAddress").count(), 2);
    assert!(script.contains("throw"));
}

#[test]
fn clear_script_resets_addresses() {
    let script = build_clear_script(Some("GUID-2"));
    assert!(script.contains("-ResetServerAddresses"));
    assert!(script.contains("InterfaceGuid -eq 'GUID-2'"));
    assert!(script.contains("throw"));
}

#[test]
fn clear_script_targets_all_up_adapters_when_none() {
    let script = build_clear_script(None);
    assert!(script.contains("Where-Object Status -eq 'Up'"));
}

#[test]
fn vpn_tun_adapter_detection() {
    assert!(is_vpn_tun_adapter("WireGuard Tunnel"));
    assert!(is_vpn_tun_adapter("TAP-Windows Adapter V9"));
    assert!(is_vpn_tun_adapter("Wintun"));
    assert!(is_vpn_tun_adapter("v2rayN Proxy"));
    assert!(is_vpn_tun_adapter("sing-box TUN"));
    assert!(is_vpn_tun_adapter("Clash TUN Adapter"));
    assert!(is_vpn_tun_adapter("OpenVPN TUN Driver"));
    assert!(is_vpn_tun_adapter("wg0"));
    assert!(!is_vpn_tun_adapter("Ethernet"));
    assert!(!is_vpn_tun_adapter("Wi-Fi"));
    assert!(!is_vpn_tun_adapter("Ethernet 2"));
}

#[test]
fn apply_script_exact_text() {
    let script = build_apply_script(&req(None, "1.1.1.1", Some(""), None));
    assert_eq!(
        script,
        "$indexes = (Get-NetAdapter | Where-Object Status -eq 'Up').ifIndex\n\
         if (-not $indexes) { throw 'No matching network adapter found.' }\n\
         foreach ($idx in $indexes) { Set-DnsClientServerAddress -InterfaceIndex $idx -ServerAddresses \"1.1.1.1\" -ErrorAction Stop }"
    );
    assert_eq!(join_servers(&["a".to_string(), "b".to_string()]), "\"a\",\"b\"");
    assert_eq!(join_servers(&[]), "");
}

#[test]
fn reset_script_names_the_adapter() {
    let s = build_reset_script("G-9");
    assert!(s.starts_with("$a = Get-NetAdapter -ErrorAction Stop | Where-Object { $_.InterfaceGuid -eq 'G-9' }"));
    assert!(s.contains("Disable-NetAdapter"));
    assert!(s.ends_with("Enable-NetAdapter -Name $a.Name -Confirm:$false"));
}

#[test]
fn windows_listing_is_parsed_and_first_up_is_primary() {
    let listing = "\r\n{A}|Ethernet|false|192.168.1.1|\r\n  {B}|Wi-Fi|TRUE| 1.1.1.1 ,,8.8.8.8|2606:4700::1111\r\nbad|line\n{C}|VPN|true||\n";
    let adapters = parse_adapter_listing(listing);
    assert_eq!(adapters.len(), 3);
    assert_eq!(adapters[0].id, "{A}");
    assert_eq!(adapters[0].description.as_deref(), Some("{A}"));
    assert!(!adapters[0].is_up && !adapters[0].is_primary);
    assert_eq!(adapters[0].ipv4_dns, vec!["192.168.1.1"]);
    assert!(adapters[0].ipv6_dns.is_empty());
    assert_eq!(adapters[1].name, "Wi-Fi");
    assert!(adapters[1].is_up && adapters[1].is_primary);
    assert_eq!(adapters[1].ipv4_dns, vec!["1.1.1.1", "8.8.8.8"]);
    assert_eq!(adapters[1].ipv6_dns, vec!["2606:4700::1111"]);
    assert!(adapters[2].is_up && !adapters[2].is_primary);
    assert!(windows_adapters(&out(1, listing, "")).is_empty());
    assert_eq!(windows_adapters(&out(0, listing, "")).len(), 3);
}

#[test]
fn gates_refuse_unsupported_changes() {
    let unk = detect_capabilities(OsKind::Linux, "unknown");
    let r = dns_change_gate(&unk).unwrap();
    assert!(!r.ok);
    assert_eq!(r.message, "DNS modification is not supported on this platform/backend.");
    assert!(dns_change_gate(&detect_capabilities(OsKind::Windows, "")).is_none());
    let rd = detect_capabilities(OsKind::Linux, "systemd-resolved");
    assert_eq!(
        dhcp_gate(&rd).unwrap().message,
        "DHCP renewal is not supported on this platform."
    );
}

#[test]
fn privileged_results_follow_the_run() {
    let ok = dns_change_result("sh", &PrivilegedRun::Direct(Ok(out(0, "", ""))), "DNS applied successfully.");
    assert!(ok.ok && !ok.requires_elevation);
    assert_eq!(ok.message, "DNS applied successfully.");
    let bad = dns_change_result("sh", &PrivilegedRun::Direct(Ok(out(4, "", "denied"))), "x");
    assert_eq!(bad.message, "Failed: Command execution failed: 'sh' exited with status 4: denied");
    let declined = dns_change_result("sh", &PrivilegedRun::Elevated(ElevatedOutcome::cancelled()), "x");
    assert!(!declined.ok && declined.requires_elevation);
    assert_eq!(declined.message, "Administrator approval was declined, so DNS was not changed.");
    let failed = dns_change_result("sh", &PrivilegedRun::Elevated(ElevatedOutcome::failed("boom")), "x");
    assert_eq!(failed.message, "Failed to change DNS: boom");
    let reset = adapter_reset_result(&PrivilegedRun::Elevated(ElevatedOutcome::cancelled()));
    assert_eq!(reset.message, "Administrator approval was declined, so the adapter was not reset.");
    let flush = cache_flush_result("ipconfig", &Err(AppError::Timeout("t".into())));
    assert_eq!(flush.message, "Failed to flush DNS cache: Timeout waiting for command: t");
}

#[test]
fn sh_quote_escapes_single_quotes() {
    assert_eq!(sh_quote("abc"), "'abc'");
    assert_eq!(sh_quote("it's"), "'it'\\''s'");
    assert_eq!(sh_quote(""), "''");
}

#[test]
fn servers_are_collected_in_order() {
    let mut r = req(None, "1.1.1.1", Some("1.0.0.1"), Some(""));
    r.secondary_ipv6 = Some("2606:4700:4700::1001".into());
    assert_eq!(collect_servers(&r), vec!["1.1.1.1", "1.0.0.1", "2606:4700:4700::1001"]);
}

#[test]
fn nm_connections_and_servers_are_read() {
    let conns = parse_nm_connections("Wired:uuid-1:eth0:activated\nshort:line\nVPN:uuid-2::deactivated\n");
    assert_eq!(conns.len(), 2);
    assert_eq!(conns[0].uuid, "uuid-1");
    assert!(conns[0].active && !conns[1].active);
    let dns = nm_dns_servers("IP4.DNS[1]:1.1.1.1\nIP6.DNS[1]:2606:4700::1111\nIP4.DNS[2]: 8.8.8.8 , \nnocolon\n");
    assert_eq!(dns.ipv4, vec!["1.1.1.1", "8.8.8.8"]);
    assert_eq!(dns.ipv6, vec!["2606:4700::1111"]);
    let a = nm_adapter(&conns[1], "IP4.DNS[1]:9.9.9.9\n");
    assert_eq!(a.name, "VPN");
    assert_eq!(a.id, "uuid-2");
    assert_eq!(a.description.as_deref(), Some("VPN"));
    assert_eq!(a.ipv4_dns, vec!["9.9.9.9"]);
}

#[test]
fn resolvectl_status_is_read() {
    let status = "Global\n  DNS Servers: 9.9.9.9\nLink 2 (eth0)\n    Current Scopes: DNS\n  DNS Servers: 1.1.1.1 2606:4700::1111\n         DNS Servers: 8.8.8.8\nLink 3 (wlan0)\nLink 4\n";
    let a = parse_resolvectl_status(status);
    assert_eq!(a.len(), 3);
    assert_eq!(a[0].name, "eth0");
    assert!(a[0].is_primary && a[0].is_up);
    assert_eq!(a[0].ipv4_dns, vec!["1.1.1.1", "8.8.8.8"]);
    assert_eq!(a[0].ipv6_dns, vec!["2606:4700::1111"]);
    assert_eq!(a[1].id, "wlan0");
    assert!(!a[1].is_primary);
    assert_eq!(a[2].name, "");
}

#[test]
fn resolv_conf_is_read() {
    let a = parse_resolv_conf("# comment\nnameserver 1.1.1.1\n  nameserver   ::1  \nnameserver\nsearch lan\n");
    assert_eq!(a.len(), 1);
    assert_eq!(a[0].id, "resolv.conf");
    assert_eq!(a[0].name, "System (resolv.conf)");
    assert!(a[0].is_primary);
    assert_eq!(a[0].ipv4_dns, vec!["1.1.1.1"]);
    assert_eq!(a[0].ipv6_dns, vec!["::1"]);
    assert!(parse_resolv_conf("")[0].ipv4_dns.is_empty());
}

#[test]
fn linux_discovery_and_route() {
    assert_eq!(
        apply_discovery_command(None, "networkmanager").unwrap(),
        vec!["nmcli", "-t", "-f", "UUID", "con", "show", "--active"]
    );
    assert_eq!(apply_discovery_command(None, "systemd-resolved").unwrap(), vec!["ip", "route", "show", "default"]);
    assert!(apply_discovery_command(Some("eth0"), "systemd-resolved").is_none());
    assert!(apply_discovery_command(None, "resolv.conf").is_none());
    assert!(clear_discovery_command(None, "systemd-resolved").is_none());
    assert_eq!(default_route_interface("default via 10.0.0.1 dev wlp2s0 proto dhcp\nother dev x\n"), "wlp2s0");
    assert_eq!(default_route_interface("default via 10.0.0.1 dev\n"), "lo");
    assert_eq!(default_route_interface(""), "lo");
    assert_eq!(active_connections(" a \n\nb\n"), vec!["a", "b"]);
}

#[test]
fn linux_apply_plans() {
    let r = req(None, "1.1.1.1", Some("1.0.0.1"), Some("2606:4700:4700::1111"));
    let (cmd, msg) = run_of(linux_apply_plan(&r, "networkmanager", "uuid-1\n"));
    assert_eq!(
        cmd,
        "nmcli con mod 'uuid-1' ipv4.dns '1.1.1.1 1.0.0.1' ipv4.ignore-auto-dns yes && \
         nmcli con mod 'uuid-1' ipv6.dns '2606:4700:4700::1111' ipv6.ignore-auto-dns yes && \
         nmcli con up 'uuid-1'"
    );
    assert_eq!(msg, "DNS applied successfully.");
    assert_eq!(
        answer_of(linux_apply_plan(&r, "networkmanager", "\n")),
        "No active NetworkManager connections found."
    );
    let (cmd, _) = run_of(linux_apply_plan(&r, "systemd-resolved", "default via x dev eth1\n"));
    assert_eq!(cmd, "resolvectl dns 'eth1' '1.1.1.1' '1.0.0.1' '2606:4700:4700::1111'");
    let (cmd, msg) = run_of(linux_apply_plan(&r, "resolv.conf", ""));
    assert_eq!(
        cmd,
        "printf %s '# Generated by SparkDns\nnameserver 1.1.1.1\nnameserver 1.0.0.1\nnameserver 2606:4700:4700::1111\n' | tee /etc/resolv.conf > /dev/null"
    );
    assert_eq!(msg, "DNS written to /etc/resolv.conf.");
    let (cmd, msg) = run_of(linux_apply_plan(&r, "resolvconf", ""));
    assert_eq!(
        cmd,
        "printf %s 'nameserver 1.1.1.1\nnameserver 1.0.0.1\nnameserver 2606:4700:4700::1111\n' | resolvconf -a sparkdns"
    );
    assert_eq!(msg, "DNS applied via resolvconf.");
    assert_eq!(answer_of(linux_apply_plan(&r, "unknown", "")), "Unsupported Linux DNS backend: unknown");
}

#[test]
fn linux_clear_plans() {
    let (cmd, msg) = run_of(linux_clear_plan(Some("c'1"), "networkmanager", ""));
    assert_eq!(
        cmd,
        "nmcli con mod 'c'\\''1' ipv4.dns '' ipv4.ignore-auto-dns no && \
         nmcli con mod 'c'\\''1' ipv6.dns '' ipv6.ignore-auto-dns no && nmcli con up 'c'\\''1'"
    );
    assert_eq!(msg, "DNS cleared and reset to automatic.");
    let (cmd, msg) = run_of(linux_clear_plan(None, "systemd-resolved", ""));
    assert_eq!(cmd, "resolvectl revert 'lo'");
    assert_eq!(msg, "DNS reverted on lo.");
    let (cmd, _) = run_of(linux_clear_plan(None, "resolvconf", ""));
    assert_eq!(cmd, "resolvconf -d sparkdns");
    assert_eq!(answer_of(linux_clear_plan(None, "networkmanager", "")), "No active NetworkManager connections found.");
}

#[test]
fn linux_flush_and_renew() {
    assert_eq!(linux_flush_command("systemd-resolved", false).unwrap(), vec!["resolvectl", "flush-caches"]);
    assert_eq!(linux_flush_command("resolv.conf", true).unwrap(), vec!["nscd", "-i", "hosts"]);
    assert!(linux_flush_command("resolv.conf", false).is_none());
    let none = Ok(out(0, "", ""));
    assert_eq!(linux_flush_result("networkmanager", false, &none).message, "DNS cache flush attempted.");
    assert_eq!(linux_flush_result("resolvconf", false, &none).message, "No DNS cache flush mechanism detected.");
    assert_eq!(
        linux_flush_result("systemd-resolved", false, &Ok(out(1, "", "x"))).message,
        "Failed to flush cache: Command execution failed: 'resolvectl' exited with status 1: x"
    );
    let s = renew_summary(&["a".to_string(), "b".to_string()]);
    assert!(s.ok);
    assert_eq!(s.message, "DHCP renewed: a: renewed; b: renewed");
    assert_eq!(renew_summary(&[]).message, "DHCP renewed: ");
    assert!(!renew_without_nmcli().ok);
}

#[test]
fn macos_services_and_commands() {
    let names = service_names(
        "An asterisk (*) denotes that a network service is disabled.\nWi-Fi\n  \n*Thunderbolt Bridge\nUSB 10/100\n",
    );
    assert_eq!(names, vec!["Wi-Fi", "*Thunderbolt Bridge", "USB 10/100"]);
    let a = macos_adapter("Wi-Fi", "1.1.1.1\n\n2606:4700::1111\n");
    assert_eq!(a.ipv4_dns, vec!["1.1.1.1"]);
    assert_eq!(a.ipv6_dns, vec!["2606:4700::1111"]);
    assert_eq!(a.description.as_deref(), Some("Wi-Fi"));
    let cmd = build_apply_command(&["Wi-Fi".to_string(), "Eth".to_string()], &["1.1.1.1".to_string()]);
    assert_eq!(
        cmd,
        "networksetup -setdnsservers 'Wi-Fi' '1.1.1.1' && networksetup -setdnsservers 'Eth' '1.1.1.1'"
    );
    assert_eq!(build_clear_command(&["Wi-Fi".to_string()]), "networksetup -setdnsservers 'Wi-Fi' empty");
    let r = req(None, "9.9.9.9", None, None);
    assert_eq!(answer_of(macos_apply_plan(&r, &[])), "No network services available to configure.");
    let (cmd, msg) = run_of(macos_apply_plan(&r, &["Wi-Fi".to_string()]));
    assert_eq!(cmd, "networksetup -setdnsservers 'Wi-Fi' '9.9.9.9'");
    assert_eq!(msg, "DNS applied successfully.");
    let (cmd, msg) = run_of(macos_clear_plan(Some("Eth"), &[]));
    assert_eq!(cmd, "networksetup -setdnsservers 'Eth' empty");
    assert_eq!(msg, "DNS cleared and reset to automatic.");
}

#[test]
fn float_tokens_follow_the_std_grammar() {
    let f = |s: &str| is_float_token(&s.chars().collect::<Vec<char>>());
    for ok in ["1", "1.5", ".5", "5.", "+1e3", "-2E-4", "inf", "-Infinity", "NaN", "0.000"] {
        assert!(f(ok), "{ok}");
        assert!(ok.parse::<f64>().is_ok());
    }
    for bad in ["", ".", "1..2", "e5", "1e", "1e+", "ms", "1.2.3", "--1", "in"] {
        assert!(!f(bad), "{bad}");
        assert!(bad.parse::<f64>().is_err());
    }
}

#[test]
fn tracert_and_traceroute_hops() {
    let tracert = "\nTracing route to 1.1.1.1\n\n  1     1 ms     1 ms     1 ms  192.168.1.1\n  2     *        *        *     Request timed out.\n  3    12ms    11 ms    12 ms  [1.1.1.1]\nTrace complete.\n";
    let hops = parse_tracert(&out(0, tracert, ""));
    assert_eq!(hops.len(), 3);
    assert_eq!(hops[0].index, 3);
    assert_eq!(hops[0].host.as_deref(), Some("192.168.1.1"));
    assert_eq!(hops[0].latency_ms.as_deref(), Some("1"));
    assert_eq!(hops[1].index, 4);
    assert_eq!(hops[1].host.as_deref(), Some("."));
    assert_eq!(hops[1].latency_ms, None);
    assert_eq!(hops[2].host.as_deref(), Some("1.1.1.1"));
    assert_eq!(hops[2].latency_ms.as_deref(), Some("12"));
    let unix = "traceroute to 1.1.1.1, 30 hops max\n 1  router (192.168.1.1)  1.123 ms  1.456 ms\n 2  * * *\n";
    let hops = parse_traceroute(&out(0, unix, ""));
    assert_eq!(hops.len(), 2);
    assert_eq!(hops[0].index, 2);
    assert_eq!(hops[0].host.as_deref(), Some("router"));
    assert_eq!(hops[0].latency_ms.as_deref(), Some("1"));
    assert_eq!(hops[1].host.as_deref(), Some("*"));
}

#[test]
fn traceroute_runs_are_reported() {
    assert_eq!(traceroute_command(OsKind::Windows, "h"), vec!["tracert", "-d", "-w", "1000", "-h", "30", "h"]);
    assert_eq!(traceroute_command(OsKind::Linux, "h"), vec!["traceroute", "-m", "30", "-w", "1", "h"]);
    let r = traceroute_result(OsKind::Macos, "h", &out(1, " 1  a (1.2.3.4)  2 ms\n", "oops"));
    assert!(!r.ok);
    assert_eq!(r.host, "h");
    assert_eq!(r.hops.len(), 1);
    assert_eq!(r.raw.as_deref(), Some("1  a (1.2.3.4)  2 ms  oops"));
    assert_eq!(r.error.as_deref(), Some("traceroute exited with non-zero status"));
    let long = "x".repeat(5000);
    let w = traceroute_result(OsKind::Windows, "h", &out(0, &long, ""));
    assert!(w.ok && w.error.is_none());
    assert_eq!(w.raw.unwrap(), format!("{}...[truncated]", "x".repeat(4000)));
}

#[test]
fn windows_commands_and_reset_gate() {
    assert_eq!(flush_command(), vec!["ipconfig", "/flushdns"]);
    assert_eq!(renew_command(), vec!["ipconfig", "/renew"]);
    assert!(adapter_reset_gate(OsKind::Windows).is_none());
    assert_eq!(
        adapter_reset_gate(OsKind::Linux).unwrap().message,
        "Adapter reset is only supported on Windows."
    );
}

#[test]
fn raw_output_cut_must_fall_between_characters() {
    assert!(raw_output_fits(&out(0, "short", "")));
    assert!(raw_output_fits(&out(0, &"x".repeat(5000), "")));
    let odd = format!("x{}", "é".repeat(3000));
    assert!(!raw_output_fits(&out(0, &odd, "")));
}

#[test]
fn nmcli_commands() {
    assert_eq!(connection_listing_command(), vec!["nmcli", "-t", "-f", "NAME,UUID,DEVICE,STATE", "con", "show"]);
    assert_eq!(connection_dns_command("u"), vec!["nmcli", "-t", "-f", "IP4.DNS,IP6.DNS", "con", "show", "u"]);
    assert_eq!(connection_up_command("u"), vec!["nmcli", "con", "up", "u"]);
    assert_eq!(resolvectl_status_command(), vec!["resolvectl", "status"]);
}

#[test]
fn listing_source_follows_backend() {
    assert_eq!(listing_source("networkmanager"), ListingSource::Connections);
    assert_eq!(listing_source("systemd-resolved"), ListingSource::ResolvedStatus);
    assert_eq!(listing_source("resolv.conf"), ListingSource::ResolvConfFile);
    assert_eq!(listing_source("resolvconf"), ListingSource::Nothing);
}
