//! Platform detection and the capabilities of each platform and DNS backend.
use vstd::prelude::*;

use crate::models::{OsKind, PlatformCapabilities};
use crate::text::{str_eq, string_views};

verus! {

/// The operating system named by a build target's `std::env::consts::OS`.
pub open spec fn os_named(target_os: Seq<char>) -> Option<OsKind> {
    if target_os == "windows"@ {
        Some(OsKind::Windows)
    } else if target_os == "macos"@ {
        Some(OsKind::Macos)
    } else if target_os == "linux"@ {
        Some(OsKind::Linux)
    } else {
        None
    }
}

/// The operating system of a build target, named as `std::env::consts::OS`
/// names it; none for a platform the application does not support.
pub fn detect_os(target_os: &str) -> (r: Option<OsKind>)
    ensures
        r == os_named(target_os@),
{
    if str_eq(target_os, "windows") {
        Some(OsKind::Windows)
    } else if str_eq(target_os, "macos") {
        Some(OsKind::Macos)
    } else if str_eq(target_os, "linux") {
        Some(OsKind::Linux)
    } else {
        None
    }
}

/// Which Linux DNS tools were found: `nmcli`, `resolvectl` and `resolvconf`
/// on the search path, and the file `/etc/resolv.conf`.
#[derive(Debug, Clone, Copy)]
pub struct LinuxDnsTools {
    pub nmcli: bool,
    pub resolvectl: bool,
    pub resolvconf: bool,
    pub resolv_conf_file: bool,
}

/// The Linux DNS backend that the found tools select, in order of preference.
pub open spec fn linux_backend(t: LinuxDnsTools) -> Seq<char> {
    if t.nmcli {
        "networkmanager"@
    } else if t.resolvectl {
        "systemd-resolved"@
    } else if t.resolvconf {
        "resolvconf"@
    } else if t.resolv_conf_file {
        "resolv.conf"@
    } else {
        "unknown"@
    }
}

/// Detect which DNS backend is available on Linux.
/// Returns one of: "networkmanager", "systemd-resolved", "resolvconf",
/// "resolv.conf", "unknown".
pub fn detect_linux_dns_backend(tools: LinuxDnsTools) -> (r: String)
    ensures
        r@ == linux_backend(tools),
{
    if tools.nmcli {
        return "networkmanager".to_owned();
    }
    if tools.resolvectl {
        return "systemd-resolved".to_owned();
    }
    if tools.resolvconf {
        return "resolvconf".to_owned();
    }
    if tools.resolv_conf_file {
        return "resolv.conf".to_owned();
    }
    "unknown".to_owned()
}

/// The features hidden on Linux with the given backend.
pub open spec fn linux_hidden(backend: Seq<char>) -> Seq<Seq<char>> {
    let base = seq!["app_rules"@, "adapter_reset"@, "doh"@];
    let a = if backend != "networkmanager"@ {
        base.push("dhcp_renew"@)
    } else {
        base
    };
    if backend == "unknown"@ {
        a.push("flush_cache"@)
    } else {
        a
    }
}

/// The features hidden on Linux with the given backend.
pub fn build_linux_hidden_features(backend: &str) -> (r: Vec<String>)
    ensures
        string_views(r@) == linux_hidden(backend@),
{
    let mut hidden: Vec<String> = Vec::new();
    hidden.push("app_rules".to_owned());
    hidden.push("adapter_reset".to_owned());
    hidden.push("doh".to_owned());
    if !str_eq(backend, "networkmanager") {
        hidden.push("dhcp_renew".to_owned());
    }
    if str_eq(backend, "unknown") {
        hidden.push("flush_cache".to_owned());
    }
    assert(string_views(hidden@) =~= linux_hidden(backend@));
    hidden
}

/// The capabilities of each platform; on Linux they depend on the backend.
pub open spec fn capabilities_spec(os: OsKind, backend: Seq<char>, c: PlatformCapabilities) -> bool {
    &&& c.os == os
    &&& !c.supports_app_rules
    &&& c.requires_elevation_for_dns
    &&& c.supports_traceroute
    &&& c.supports_flush_dns
    &&& match os {
        OsKind::Windows => {
            &&& c.supports_ipv4_dns && c.supports_ipv6_dns && c.supports_doh
            &&& c.supports_dhcp_renew && c.supports_adapter_reset && c.supports_auto_switch
            &&& c.dns_backend@ == "netsh"@
            &&& string_views(c.hidden_features@) == seq!["app_rules"@]
        },
        OsKind::Macos => {
            &&& c.supports_ipv4_dns && c.supports_ipv6_dns && !c.supports_doh
            &&& c.supports_dhcp_renew && !c.supports_adapter_reset && c.supports_auto_switch
            &&& c.dns_backend@ == "networksetup"@
            &&& string_views(c.hidden_features@) == seq!["app_rules"@, "adapter_reset"@]
        },
        OsKind::Linux => {
            let known = backend != "unknown"@;
            &&& c.supports_ipv4_dns == known && c.supports_ipv6_dns == known
            &&& !c.supports_doh
            &&& c.supports_dhcp_renew == (backend == "networkmanager"@)
            &&& !c.supports_adapter_reset
            &&& c.supports_auto_switch == known
            &&& c.dns_backend@ == backend
            &&& string_views(c.hidden_features@) == linux_hidden(backend)
        },
    }
}

/// Detect capabilities for the given platform; `linux_backend` is the result
/// of [`detect_linux_dns_backend`] and matters on Linux only.
pub fn detect_capabilities(os: OsKind, linux_backend: &str) -> (c: PlatformCapabilities)
    ensures
        capabilities_spec(os, linux_backend@, c),
        string_views(c.hidden_features@).contains("app_rules"@),
{
    let c = match os {
        OsKind::Windows => {
            let mut hidden: Vec<String> = Vec::new();
            hidden.push("app_rules".to_owned());
            assert(string_views(hidden@) =~= seq!["app_rules"@]);
            PlatformCapabilities {
                os: OsKind::Windows,
                supports_ipv4_dns: true,
                supports_ipv6_dns: true,
                supports_doh: true,
                supports_flush_dns: true,
                supports_dhcp_renew: true,
                supports_adapter_reset: true,
                supports_traceroute: true,
                supports_app_rules: false,
                supports_auto_switch: true,
                requires_elevation_for_dns: true,
                dns_backend: "netsh".to_owned(),
                hidden_features: hidden,
            }
        },
        OsKind::Macos => {
            let mut hidden: Vec<String> = Vec::new();
            hidden.push("app_rules".to_owned());
            hidden.push("adapter_reset".to_owned());
            assert(string_views(hidden@) =~= seq!["app_rules"@, "adapter_reset"@]);
            PlatformCapabilities {
                os: OsKind::Macos,
                supports_ipv4_dns: true,
                supports_ipv6_dns: true,
                supports_doh: false,
                supports_flush_dns: true,
                supports_dhcp_renew: true,
                supports_adapter_reset: false,
                supports_traceroute: true,
                supports_app_rules: false,
                supports_auto_switch: true,
                requires_elevation_for_dns: true,
                dns_backend: "networksetup".to_owned(),
                hidden_features: hidden,
            }
        },
        OsKind::Linux => {
            let known = !str_eq(linux_backend, "unknown");
            let hidden = build_linux_hidden_features(linux_backend);
            PlatformCapabilities {
                os: OsKind::Linux,
                supports_ipv4_dns: known,
                supports_ipv6_dns: known,
                supports_doh: false,
                supports_flush_dns: true,
                supports_dhcp_renew: str_eq(linux_backend, "networkmanager"),
                supports_adapter_reset: false,
                supports_traceroute: true,
                supports_app_rules: false,
                supports_auto_switch: known,
                requires_elevation_for_dns: true,
                dns_backend: linux_backend.to_owned(),
                hidden_features: hidden,
            }
        },
    };
    assert(string_views(c.hidden_features@)[0] == "app_rules"@);
    c
}

} // verus!
