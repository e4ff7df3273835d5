use sparkdns::diagnostics::nslookup_answer_found;
use sparkdns::command_runner::RunOutput;
use sparkdns::diagnostics::{
    active_resolver, check_leak, dnssec_next, dnssec_start, invalid_host_report, is_private_ipv4,
    lookup_command, lookup_resolved, parse_ping_latency, ping_adapter, ping_command, ping_report,
    resolve_command, resolved_addresses, source_address, source_address_command, DnssecStage,
    DnssecStep,
};
use sparkdns::errors::AppError;
use sparkdns::models::{NetworkAdapter, OsKind};

fn adapter(is_up: bool, dns: &[&str]) -> NetworkAdapter {
    NetworkAdapter {
        id: "test".into(),
        name: "Test".into(),
        description: None,
        is_up,
        is_primary: true,
        ipv4_dns: dns.iter().map(|s| s.to_string()).collect(),
        ipv6_dns: vec![],
    }
}

fn out(status: i32, stdout: &str, stderr: &str) -> RunOutput {
    RunOutput { status, stdout: stdout.to_string(), stderr: stderr.to_string() }
}

#[test]
fn detects_private_ipv4_ranges() {
    assert!(is_private_ipv4("10.0.0.1"));
    assert!(is_private_ipv4("192.168.1.1"));
    assert!(is_private_ipv4("172.16.0.1"));
    assert!(is_private_ipv4("172.31.255.255"));
    assert!(is_private_ipv4("127.0.0.1"));
    assert!(!is_private_ipv4("8.8.8.8"));
    assert!(!is_private_ipv4("1.1.1.1"));
    assert!(!is_private_ipv4("172.32.0.1"));
    assert!(!is_private_ipv4("not-an-ip"));
}

#[test]
fn private_ranges_edge_cases() {
    assert!(is_private_ipv4("169.254.3.4"));
    assert!(!is_private_ipv4("169.253.3.4"));
    assert!(!is_private_ipv4("172.15.0.1"));
    assert!(is_private_ipv4("+10.1.2.3"));
    assert!(is_private_ipv4("10.x.1.2.3"));
    assert!(!is_private_ipv4("10.1.2"));
    assert!(!is_private_ipv4("300.10.1.2"));
}

#[test]
fn leak_check_flags_router_resolver() {
    assert_eq!(check_leak(&[adapter(true, &["1.1.1.1", "8.8.8.8"])]), Some(true));
    assert_eq!(check_leak(&[adapter(true, &["192.168.1.1"])]), Some(false));
    assert_eq!(check_leak(&[adapter(true, &[])]), Some(false));
    assert_eq!(check_leak(&[adapter(false, &["1.1.1.1"])]), None);
    assert_eq!(check_leak(&[]), None);
}

#[test]
fn leak_check_ignores_adapters_that_are_down() {
    let adapters = vec![adapter(false, &["192.168.1.1"]), adapter(true, &["9.9.9.9"])];
    assert_eq!(check_leak(&adapters), Some(true));
    let adapters = vec![adapter(true, &["9.9.9.9"]), adapter(true, &["9.9.9.9", "10.0.0.1"])];
    assert_eq!(check_leak(&adapters), Some(false));
}

#[test]
fn active_resolver_prefers_up_adapter() {
    let adapters = vec![adapter(false, &["9.9.9.9"]), adapter(true, &["1.1.1.1"])];
    assert_eq!(active_resolver(&adapters), Some("1.1.1.1".to_string()));
}

#[test]
fn active_resolver_falls_back_to_any_adapter() {
    let adapters = vec![adapter(true, &[]), adapter(false, &["9.9.9.9", "1.1.1.1"])];
    assert_eq!(active_resolver(&adapters), Some("9.9.9.9".to_string()));
    assert_eq!(active_resolver(&[adapter(true, &[])]), None);
    assert_eq!(ping_adapter(&adapters), None);
    let mut up = adapter(true, &["1.1.1.1"]);
    up.id = "up-id".into();
    assert_eq!(ping_adapter(&[adapters[1].clone(), up]), Some("up-id".to_string()));
}

#[test]
fn ping_commands() {
    assert_eq!(ping_command(OsKind::Windows, "h", None), vec!["ping", "-n", "4", "-w", "2000", "h"]);
    assert_eq!(
        ping_command(OsKind::Linux, "h", Some("10.0.0.2")),
        vec!["ping", "-c", "4", "-W", "2", "-I", "10.0.0.2", "h"]
    );
    assert!(source_address_command(OsKind::Linux, Some("g")).is_none());
    let c = source_address_command(OsKind::Windows, Some("g")).unwrap();
    assert_eq!(c.len(), 5);
    assert!(c[4].contains("-InterfaceGuid 'g'"));
    assert_eq!(source_address(&Ok(out(0, " 10.0.0.5\r\n", ""))), Some("10.0.0.5".to_string()));
    assert_eq!(source_address(&Ok(out(0, "  ", ""))), None);
    assert_eq!(source_address(&Ok(out(1, "10.0.0.5", ""))), None);
}

#[test]
fn ping_latency_is_read() {
    let win = "Pinging 1.1.1.1\r\n    Minimum = 10ms, Maximum = 12ms, Average = 11ms\r\n";
    assert_eq!(parse_ping_latency(win, OsKind::Windows), Some("11".to_string()));
    let win2 = "Approximate round trip times in milli-seconds:\r\n    Minimum = 1ms, Maximum = 3ms, Average = 2ms\r\n";
    assert_eq!(parse_ping_latency(win2, OsKind::Windows), Some("2".to_string()));
    let unix = "--- 1.1.1.1 ping statistics ---\nrtt min/avg/max/mdev = 9.1/10.25/11.0/0.5 ms\n";
    assert_eq!(parse_ping_latency(unix, OsKind::Linux), Some("10.25".to_string()));
    let mac = "round-trip min/avg/max/stddev = 1.0/2.5/3.0/0.1 ms\n";
    assert_eq!(parse_ping_latency(mac, OsKind::Macos), Some("2.5".to_string()));
    assert_eq!(parse_ping_latency("rtt min/avg = 1/2 ms\n", OsKind::Linux), None);
    assert_eq!(parse_ping_latency("", OsKind::Windows), None);
}

#[test]
fn ping_reports() {
    let ok = ping_report(OsKind::Linux, "h", &Ok(out(0, "rtt min/avg/max/mdev = 1/2/3/4 ms\n", "")));
    assert!(ok.reachable);
    assert_eq!(ok.latency.as_deref(), Some("2"));
    assert_eq!(ok.error, None);
    let down = ping_report(OsKind::Linux, "h", &Ok(out(1, "", "")));
    assert!(!down.reachable);
    assert_eq!(down.error.as_deref(), Some("Host unreachable"));
    let err = ping_report(OsKind::Windows, "h", &Err(AppError::Command("spawn\u{0}".into())));
    assert_eq!(err.error.as_deref(), Some("Command execution failed: spawn"));
    let bad = invalid_host_report("b\nh", &AppError::Validation("Invalid host".into()));
    assert_eq!(bad.error.as_deref(), Some("Validation error: Invalid host"));
    assert_eq!(bad.host, "b\nh");
}

#[test]
fn lookups() {
    assert!(lookup_command(OsKind::Linux, None, "bad\nhost").is_none());
    assert_eq!(
        lookup_command(OsKind::Linux, Some("1.1.1.1"), "cloudflare.com").unwrap(),
        vec!["dig", "+short", "+time=3", "+tries=1", "cloudflare.com", "A", "@1.1.1.1"]
    );
    assert_eq!(
        lookup_command(OsKind::Windows, None, "cloudflare.com").unwrap(),
        vec!["nslookup", "-type=A", "-timeout=3", "-retry=1", "cloudflare.com"]
    );
    assert!(lookup_resolved(OsKind::Linux, &Ok(out(0, "cname.example.\n104.16.1.1\n", ""))));
    assert!(!lookup_resolved(OsKind::Linux, &Ok(out(0, "cname.example.\n", ""))));
    assert!(lookup_resolved(OsKind::Windows, &Ok(out(0, "Name:    cloudflare.com\nAddresses:  1.1.1.1", ""))));
    assert!(!lookup_resolved(OsKind::Windows, &Ok(out(0, "Name: x\n", "*** Server failed"))));
    assert!(!lookup_resolved(OsKind::Windows, &Err(AppError::Timeout("x".into()))));
}

#[test]
fn dnssec_probe_steps() {
    let (stage, step) = dnssec_start(Some("1.1.1.1"));
    assert_eq!(stage, DnssecStage::Control);
    match step {
        DnssecStep::Lookup(s, n) => {
            assert_eq!(s.as_deref(), Some("1.1.1.1"));
            assert_eq!(n, "cloudflare.com");
        }
        _ => panic!("expected a lookup"),
    }
    let (stage, step) = dnssec_next(DnssecStage::Control, Some("1.1.1.1"), false);
    assert_eq!(stage, DnssecStage::Fallback);
    assert!(matches!(step, DnssecStep::Lookup(None, ref n) if n == "cloudflare.com"));
    let (stage, step) = dnssec_next(stage, None, true);
    assert_eq!(stage, DnssecStage::Broken);
    assert!(matches!(step, DnssecStep::Lookup(None, ref n) if n == "dnssec-failed.org"));
    let (_, step) = dnssec_next(stage, None, false);
    assert!(matches!(step, DnssecStep::Verdict(Some(true))));
    let (_, step) = dnssec_next(DnssecStage::Broken, None, true);
    assert!(matches!(step, DnssecStep::Verdict(Some(false))));
    let (_, step) = dnssec_next(DnssecStage::Control, None, false);
    assert!(matches!(step, DnssecStep::Verdict(None)));
    let (_, step) = dnssec_next(DnssecStage::Fallback, None, false);
    assert!(matches!(step, DnssecStep::Verdict(None)));
}

#[test]
fn resolving_a_host() {
    assert_eq!(
        resolve_command(OsKind::Linux, "example.com", Some("9.9.9.9")).unwrap(),
        vec!["dig", "+short", "@9.9.9.9", "example.com"]
    );
    assert_eq!(
        resolve_command(OsKind::Windows, "example.com", Some("9.9.9.9")).unwrap(),
        vec!["nslookup", "example.com", "9.9.9.9"]
    );
    assert!(matches!(
        resolve_command(OsKind::Linux, "", None),
        Err(AppError::Validation(ref m)) if m == "Invalid host"
    ));
    let nslookup = "Server:  dns.google\nAddress:  8.8.8.8\n\nName:    example.com\nAddresses:  2606:2800:220:1::1\n          93.184.216.34\n";
    assert_eq!(
        resolved_addresses(nslookup),
        vec!["8.8.8.8", "2606:2800:220:1::1", "93.184.216.34"]
    );
    assert_eq!(resolved_addresses("cname.\n1.2.3.4\n\n"), vec!["1.2.3.4"]);
}

#[test]
fn nslookup_answer_read_from_lowered_text() {
    assert!(nslookup_answer_found("name:    cloudflare.com\naddresses:  1.1.1.1"));
    assert!(nslookup_answer_found("addresses: 1.1.1.1"));
    assert!(!nslookup_answer_found("name: x\n*** server failed"));
    assert!(!nslookup_answer_found("*** request to dns timed out"));
    assert!(!nslookup_answer_found("server:  unknown"));
    assert!(!nslookup_answer_found("Name: X"));
}
