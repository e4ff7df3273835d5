use sparkdns::models::OsKind;
use sparkdns::platform::{detect_capabilities, detect_linux_dns_backend, detect_os, LinuxDnsTools};

fn all_caps() -> Vec<sparkdns::models::PlatformCapabilities> {
    vec![
        detect_capabilities(OsKind::Windows, "unknown"),
        detect_capabilities(OsKind::Macos, "unknown"),
        detect_capabilities(OsKind::Linux, "networkmanager"),
        detect_capabilities(OsKind::Linux, "systemd-resolved"),
        detect_capabilities(OsKind::Linux, "unknown"),
    ]
}

fn has(caps: &sparkdns::models::PlatformCapabilities, f: &str) -> bool {
    caps.hidden_features.contains(&f.to_string())
}

#[test]
fn detect_os_returns_current_platform() {
    for target in ["windows", "macos", "linux"] {
        let os = detect_os(target);
        let any_supported = matches!(os, Some(OsKind::Windows | OsKind::Macos | OsKind::Linux));
        assert!(any_supported, "detect_os should return a supported OS kind");
    }
}

#[test]
fn test_platform_detect_os() {
    assert_eq!(detect_os("windows"), Some(OsKind::Windows));
    assert_eq!(detect_os("macos"), Some(OsKind::Macos));
    assert_eq!(detect_os("linux"), Some(OsKind::Linux));
    assert_eq!(detect_os("freebsd"), None);
}

#[test]
fn windows_capabilities_hide_app_rules() {
    let caps = detect_capabilities(OsKind::Windows, "unknown");
    assert!(caps.supports_ipv4_dns);
    assert!(caps.supports_ipv6_dns);
    assert!(caps.requires_elevation_for_dns);
    assert!(has(&caps, "app_rules"));
    assert!(!caps.supports_app_rules);
    assert!(caps.supports_doh);
    assert_eq!(caps.dns_backend, "netsh");
}

#[test]
fn macos_capabilities_hide_adapter_reset_and_app_rules() {
    let caps = detect_capabilities(OsKind::Macos, "unknown");
    assert!(caps.supports_ipv4_dns);
    assert!(caps.supports_ipv6_dns);
    assert!(!caps.supports_adapter_reset);
    assert!(!caps.supports_app_rules);
    assert!(!caps.supports_doh);
    assert!(has(&caps, "app_rules"));
    assert!(has(&caps, "adapter_reset"));
    assert_eq!(caps.dns_backend, "networksetup");
}

#[test]
fn linux_capabilities_hide_doh_and_app_rules() {
    for backend in ["networkmanager", "systemd-resolved", "resolvconf", "resolv.conf", "unknown"] {
        let caps = detect_capabilities(OsKind::Linux, backend);
        assert!(!caps.supports_app_rules);
        assert!(!caps.supports_doh);
        assert!(!caps.supports_adapter_reset);
        assert!(has(&caps, "app_rules"));
    }
}

#[test]
fn every_platform_hides_app_rules_initially() {
    for caps in all_caps() {
        assert!(has(&caps, "app_rules"));
    }
}

#[test]
fn test_platform_capabilities() {
    for caps in all_caps() {
        assert!(!caps.supports_app_rules);
        assert!(has(&caps, "app_rules"));
    }
}

#[test]
fn linux_backend_follows_tool_preference() {
    let none = LinuxDnsTools { nmcli: false, resolvectl: false, resolvconf: false, resolv_conf_file: false };
    assert_eq!(detect_linux_dns_backend(none), "unknown");
    let file = LinuxDnsTools { resolv_conf_file: true, ..none };
    assert_eq!(detect_linux_dns_backend(file), "resolv.conf");
    let rc = LinuxDnsTools { resolvconf: true, ..file };
    assert_eq!(detect_linux_dns_backend(rc), "resolvconf");
    let rd = LinuxDnsTools { resolvectl: true, ..rc };
    assert_eq!(detect_linux_dns_backend(rd), "systemd-resolved");
    let nm = LinuxDnsTools { nmcli: true, ..rd };
    assert_eq!(detect_linux_dns_backend(nm), "networkmanager");
}

#[test]
fn linux_hidden_features_depend_on_backend() {
    let nm = detect_capabilities(OsKind::Linux, "networkmanager");
    assert_eq!(nm.hidden_features, vec!["app_rules", "adapter_reset", "doh"]);
    assert!(nm.supports_dhcp_renew);
    let rd = detect_capabilities(OsKind::Linux, "systemd-resolved");
    assert_eq!(rd.hidden_features, vec!["app_rules", "adapter_reset", "doh", "dhcp_renew"]);
    assert!(rd.supports_ipv4_dns && !rd.supports_dhcp_renew);
    let unk = detect_capabilities(OsKind::Linux, "unknown");
    assert_eq!(
        unk.hidden_features,
        vec!["app_rules", "adapter_reset", "doh", "dhcp_renew", "flush_cache"]
    );
    assert!(!unk.supports_ipv4_dns && !unk.supports_auto_switch);
    assert_eq!(unk.dns_backend, "unknown");
}
