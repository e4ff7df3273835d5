//! The data model shared by the configuration, the platform backends and the
//! diagnostics.
use vstd::prelude::*;

use crate::text::opt_view;

verus! {

/// The operating system the application runs on.
#[derive(Debug, Clone, Copy, PartialEq, Eq, Structural)]
pub enum OsKind {
    Windows,
    Linux,
    Macos,
}

/// A DNS provider profile.
#[derive(Debug, Clone)]
pub struct DnsProfile {
    pub id: String,
    pub name: String,
    pub primary_ipv4: String,
    pub secondary_ipv4: Option<String>,
    pub primary_ipv6: Option<String>,
    pub secondary_ipv6: Option<String>,
    pub doh_url: Option<String>,
    pub dot_host: Option<String>,
    pub favorite: bool,
    pub preset: bool,
}

/// The text content of a [`DnsProfile`].
pub struct ProfileView {
    pub id: Seq<char>,
    pub name: Seq<char>,
    pub primary_ipv4: Seq<char>,
    pub secondary_ipv4: Option<Seq<char>>,
    pub primary_ipv6: Option<Seq<char>>,
    pub secondary_ipv6: Option<Seq<char>>,
    pub doh_url: Option<Seq<char>>,
    pub dot_host: Option<Seq<char>>,
    pub favorite: bool,
    pub preset: bool,
}

impl View for DnsProfile {
    type V = ProfileView;

    open spec fn view(&self) -> ProfileView {
        ProfileView {
            id: self.id@,
            name: self.name@,
            primary_ipv4: self.primary_ipv4@,
            secondary_ipv4: self.secondary_ipv4.deep_view(),
            primary_ipv6: self.primary_ipv6.deep_view(),
            secondary_ipv6: self.secondary_ipv6.deep_view(),
            doh_url: self.doh_url.deep_view(),
            dot_host: self.dot_host.deep_view(),
            favorite: self.favorite,
            preset: self.preset,
        }
    }
}

/// A host probed by the diagnostics page.
#[derive(Debug, Clone)]
pub struct DiagnosticTarget {
    pub id: String,
    pub name: String,
    pub host: String,
    pub icon: Option<String>,
}

/// The text content of a [`DiagnosticTarget`].
pub struct TargetView {
    pub id: Seq<char>,
    pub name: Seq<char>,
    pub host: Seq<char>,
    pub icon: Option<Seq<char>>,
}

impl View for DiagnosticTarget {
    type V = TargetView;

    open spec fn view(&self) -> TargetView {
        TargetView {
            id: self.id@,
            name: self.name@,
            host: self.host@,
            icon: self.icon.deep_view(),
        }
    }
}

/// User settings.
#[derive(Debug, Clone)]
pub struct AppSettings {
    pub theme: String,
    pub doh_enabled: bool,
    /// "doh" or "dot": the encryption protocol when `doh_enabled` is true.
    pub dns_encryption_type: String,
    pub ipv6_enabled: bool,
    pub minimize_to_tray: bool,
    pub start_on_boot: bool,
    pub active_adapter_id: Option<String>,
    pub diagnostic_targets: Vec<DiagnosticTarget>,
    /// Automatically ping all profiles on startup to show latency.
    pub auto_ping_enabled: bool,
    /// Automatically check for updates on startup.
    pub auto_update: bool,
}

/// What the current platform and DNS backend support.
#[derive(Debug, Clone)]
pub struct PlatformCapabilities {
    pub os: OsKind,
    pub supports_ipv4_dns: bool,
    pub supports_ipv6_dns: bool,
    pub supports_doh: bool,
    pub supports_flush_dns: bool,
    pub supports_dhcp_renew: bool,
    pub supports_adapter_reset: bool,
    pub supports_traceroute: bool,
    pub supports_app_rules: bool,
    /// Whether the background process watcher (auto-switch) is supported.
    pub supports_auto_switch: bool,
    pub requires_elevation_for_dns: bool,
    pub dns_backend: String,
    pub hidden_features: Vec<String>,
}

/// A network adapter and its configured DNS servers.
#[derive(Debug, Clone)]
pub struct NetworkAdapter {
    pub id: String,
    pub name: String,
    pub description: Option<String>,
    pub is_up: bool,
    pub is_primary: bool,
    pub ipv4_dns: Vec<String>,
    pub ipv6_dns: Vec<String>,
}

/// The content of a [`NetworkAdapter`].
pub struct AdapterView {
    pub id: Seq<char>,
    pub name: Seq<char>,
    pub description: Option<Seq<char>>,
    pub is_up: bool,
    pub is_primary: bool,
    pub ipv4_dns: Seq<Seq<char>>,
    pub ipv6_dns: Seq<Seq<char>>,
}

impl View for NetworkAdapter {
    type V = AdapterView;

    open spec fn view(&self) -> AdapterView {
        AdapterView {
            id: self.id@,
            name: self.name@,
            description: self.description.deep_view(),
            is_up: self.is_up,
            is_primary: self.is_primary,
            ipv4_dns: Seq::new(self.ipv4_dns@.len(), |i: int| self.ipv4_dns@[i]@),
            ipv6_dns: Seq::new(self.ipv6_dns@.len(), |i: int| self.ipv6_dns@[i]@),
        }
    }
}

/// Views of a sequence of adapters.
pub open spec fn adapter_views(a: Seq<NetworkAdapter>) -> Seq<AdapterView> {
    Seq::new(a.len(), |i: int| a[i]@)
}

/// A request to apply DNS servers.
#[derive(Debug, Clone)]
pub struct DnsApplyRequest {
    pub profile_id: String,
    pub adapter_id: Option<String>,
    pub primary_ipv4: String,
    pub secondary_ipv4: Option<String>,
    pub primary_ipv6: Option<String>,
    pub secondary_ipv6: Option<String>,
    pub enable_doh: bool,
}

/// The outcome of a system command, as shown to the user.
#[derive(Debug, Clone)]
pub struct CommandResult {
    pub ok: bool,
    pub message: String,
    pub requires_elevation: bool,
    pub details: Option<String>,
}

impl CommandResult {
    /// A successful result.
    pub fn ok(message: &str) -> (r: Self)
        ensures
            r.ok,
            r.message@ == message@,
            !r.requires_elevation,
            r.details is None,
    {
        CommandResult { ok: true, message: message.to_owned(), requires_elevation: false, details: None }
    }

    /// A failed result.
    pub fn err(message: &str) -> (r: Self)
        ensures
            !r.ok,
            r.message@ == message@,
            !r.requires_elevation,
            r.details is None,
    {
        CommandResult {
            ok: false,
            message: message.to_owned(),
            requires_elevation: false,
            details: None,
        }
    }

    /// A result that failed because administrator approval was not given.
    pub fn err_elevation(message: &str) -> (r: Self)
        ensures
            !r.ok,
            r.message@ == message@,
            r.requires_elevation,
            r.details is None,
    {
        CommandResult {
            ok: false,
            message: message.to_owned(),
            requires_elevation: true,
            details: None,
        }
    }
}

/// `r` reports success with message `m`.
pub open spec fn ok_result(r: CommandResult, m: Seq<char>) -> bool {
    r.ok && r.message@ == m && !r.requires_elevation && r.details is None
}

/// `r` reports a failure with message `m`.
pub open spec fn err_result(r: CommandResult, m: Seq<char>) -> bool {
    !r.ok && r.message@ == m && !r.requires_elevation && r.details is None
}

/// `r` reports that administrator approval was not given, with message `m`.
pub open spec fn declined_result(r: CommandResult, m: Seq<char>) -> bool {
    !r.ok && r.message@ == m && r.requires_elevation && r.details is None
}

/// A per-application DNS rule.
#[derive(Debug, Clone)]
pub struct AppRule {
    pub id: String,
    pub app_name: String,
    pub app_path: Option<String>,
    pub profile_id: String,
    pub enabled: bool,
}

/// A process-watcher rule: when a process whose executable matches
/// `match_name` starts running, the system DNS is switched to `profile_id`.
/// When the last running watched app exits, DNS reverts to whatever was
/// active before the auto-switch took over.
#[derive(Debug, Clone)]
pub struct AutoSwitchRule {
    pub id: String,
    /// Display label shown in the UI.
    pub app_label: String,
    /// Executable file name to match, lowercased and without directory.
    pub match_name: String,
    /// Optional full path chosen via the file picker.
    pub app_path: Option<String>,
    pub profile_id: String,
    pub enabled: bool,
}

/// A process currently running on the system.
#[derive(Debug, Clone)]
pub struct RunningProcess {
    /// Lowercased executable file name.
    pub name: String,
    /// Full executable path when available.
    pub path: Option<String>,
}

/// One entry of the apply history.
#[derive(Debug, Clone)]
pub struct HistoryEntry {
    pub name: String,
    pub ip: String,
    pub time: String,
}

/// The persisted application configuration.
#[derive(Debug, Clone)]
pub struct AppConfig {
    pub active_profile_id: Option<String>,
    pub is_connected: bool,
    pub profiles: Vec<DnsProfile>,
    pub history: Vec<HistoryEntry>,
    pub rules: Vec<AppRule>,
    /// Process-watcher auto-switch rules.
    pub auto_switch_rules: Vec<AutoSwitchRule>,
    /// Master on/off for the background process watcher.
    pub auto_switch_enabled: bool,
    pub settings: AppSettings,
    pub schema_version: u32,
}

/// One hop of a traceroute. The latency is the token of the tool's output
/// that reads as a number of milliseconds, kept as text.
#[derive(Debug, Clone)]
pub struct TracerouteHop {
    pub index: u32,
    pub host: Option<String>,
    pub latency_ms: Option<String>,
}

/// The result of a traceroute run.
#[derive(Debug, Clone)]
pub struct TracerouteResult {
    pub ok: bool,
    pub host: String,
    pub hops: Vec<TracerouteHop>,
    pub raw: Option<String>,
    pub error: Option<String>,
}

/// The configuration format version this build writes.
pub const SCHEMA_VERSION: u32 = 3;

/// Views of a sequence of profiles.
pub open spec fn profile_views(p: Seq<DnsProfile>) -> Seq<ProfileView> {
    Seq::new(p.len(), |i: int| p[i]@)
}

/// Views of a sequence of diagnostic targets.
pub open spec fn target_views(t: Seq<DiagnosticTarget>) -> Seq<TargetView> {
    Seq::new(t.len(), |i: int| t[i]@)
}

/// A profile view built from its parts.
pub open spec fn profile_of(
    id: Seq<char>,
    name: Seq<char>,
    v4: Seq<char>,
    v4b: Option<Seq<char>>,
    v6: Option<Seq<char>>,
    v6b: Option<Seq<char>>,
    doh: Option<Seq<char>>,
    dot: Option<Seq<char>>,
    favorite: bool,
) -> ProfileView {
    ProfileView {
        id,
        name,
        primary_ipv4: v4,
        secondary_ipv4: v4b,
        primary_ipv6: v6,
        secondary_ipv6: v6b,
        doh_url: doh,
        dot_host: dot,
        favorite,
        preset: true,
    }
}

/// The built-in provider profiles, one for each provider in the
/// project's provider table, in its order.
pub open spec fn preset_views() -> Seq<ProfileView> {
    seq![
        profile_of(
            "preset_cloudflare"@,
            "Cloudflare"@,
            "1.1.1.1"@,
            Some("1.0.0.1"@),
            Some("2606:4700:4700::1111"@),
            Some("2606:4700:4700::1001"@),
            Some("https://cloudflare-dns.com/dns-query"@),
            Some("one.one.one.one"@),
            true,
        ),
        profile_of(
            "preset_google"@,
            "Google"@,
            "8.8.8.8"@,
            Some("8.8.4.4"@),
            Some("2001:4860:4860::8888"@),
            Some("2001:4860:4860::8844"@),
            Some("https://dns.google/dns-query"@),
            Some("dns.google"@),
            false,
        ),
        profile_of(
            "preset_quad9"@,
            "Quad9"@,
            "9.9.9.9"@,
            Some("149.112.112.112"@),
            Some("2620:fe::fe"@),
            Some("2620:fe::9"@),
            Some("https://dns.quad9.net/dns-query"@),
            Some("dns.quad9.net"@),
            false,
        ),
        profile_of(
            "preset_adguard"@,
            "AdGuard"@,
            "94.140.14.14"@,
            Some("94.140.15.15"@),
            Some("2a10:50c0::ad1:ff"@),
            Some("2a10:50c0::ad2:ff"@),
            Some("https://dns.adguard-dns.com/dns-query"@),
            Some("dns.adguard-dns.com"@),
            false,
        ),
        profile_of(
            "preset_opendns"@,
            "OpenDNS"@,
            "208.67.222.222"@,
            Some("208.67.220.220"@),
            Some("2620:119:35::35"@),
            Some("2620:119:53::53"@),
            None,
            None,
            false,
        ),
        profile_of(
            "preset_mullvad"@,
            "Mullvad"@,
            "194.242.2.2"@,
            Some("194.242.2.3"@),
            Some("2a07:a4c0::2"@),
            Some("2a07:e3400::3"@),
            Some("https://doh.mullvad.net/dns-query"@),
            Some("doh.mullvad.net"@),
            false,
        ),
        profile_of(
            "preset_shecan"@,
            "Shecan"@,
            "178.22.122.100"@,
            Some("185.51.200.2"@),
            None,
            None,
            None,
            None,
            false,
        ),
        profile_of(
            "preset_electro"@,
            "Electro"@,
            "78.157.42.100"@,
            Some("78.157.42.101"@),
            None,
            None,
            None,
            None,
            false,
        ),
        profile_of(
            "preset_403online"@,
            "403.online"@,
            "10.202.10.10"@,
            Some("10.202.10.11"@),
            None,
            None,
            None,
            None,
            false,
        ),
        profile_of(
            "preset_radargame"@,
            "Radar Game"@,
            "10.202.10.10"@,
            Some("10.202.11.11"@),
            None,
            None,
            None,
            None,
            false,
        ),
    ]
}

/// The default diagnostic targets.
pub open spec fn default_target_views() -> Seq<TargetView> {
    seq![
        TargetView { id: "cf"@, name: "Cloudflare"@, host: "1.1.1.1"@, icon: None },
        TargetView { id: "epic"@, name: "Epic Games"@, host: "www.epicgames.com"@, icon: None },
        TargetView { id: "gemini"@, name: "Gemini"@, host: "www.google.com"@, icon: None },
        TargetView { id: "steam"@, name: "Steam"@, host: "store.steampowered.com"@, icon: None },
        TargetView { id: "yt"@, name: "YouTube"@, host: "www.youtube.com"@, icon: None },
        TargetView { id: "gpt"@, name: "ChatGPT"@, host: "chat.openai.com"@, icon: None },
        TargetView { id: "git"@, name: "GitHub"@, host: "github.com"@, icon: None },
    ]
}

fn target(id: &str, name: &str, host: &str) -> (t: DiagnosticTarget)
    ensures
        t@ == (TargetView { id: id@, name: name@, host: host@, icon: None }),
{
    DiagnosticTarget { id: id.to_owned(), name: name.to_owned(), host: host.to_owned(), icon: None }
}

/// The default diagnostic targets.
pub fn default_diag_targets() -> (v: Vec<DiagnosticTarget>)
    ensures
        target_views(v@) == default_target_views(),
{
    let mut v: Vec<DiagnosticTarget> = Vec::new();
    v.push(target("cf", "Cloudflare", "1.1.1.1"));
    v.push(target("epic", "Epic Games", "www.epicgames.com"));
    v.push(target("gemini", "Gemini", "www.google.com"));
    v.push(target("steam", "Steam", "store.steampowered.com"));
    v.push(target("yt", "YouTube", "www.youtube.com"));
    v.push(target("gpt", "ChatGPT", "chat.openai.com"));
    v.push(target("git", "GitHub", "github.com"));
    assert(target_views(v@) =~= default_target_views());
    v
}

fn opt_text(s: Option<&str>) -> (r: Option<String>)
    ensures
        r.deep_view() == opt_view(s),
{
    match s {
        Some(t) => Some(t.to_owned()),
        None => None,
    }
}

fn preset(
    id: &str,
    name: &str,
    v4: &str,
    v4b: Option<&str>,
    v6: Option<&str>,
    v6b: Option<&str>,
    doh: Option<&str>,
    dot: Option<&str>,
    favorite: bool,
) -> (p: DnsProfile)
    ensures
        p@ == profile_of(
            id@,
            name@,
            v4@,
            opt_view(v4b),
            opt_view(v6),
            opt_view(v6b),
            opt_view(doh),
            opt_view(dot),
            favorite,
        ),
{
    DnsProfile {
        id: id.to_owned(),
        name: name.to_owned(),
        primary_ipv4: v4.to_owned(),
        secondary_ipv4: opt_text(v4b),
        primary_ipv6: opt_text(v6),
        secondary_ipv6: opt_text(v6b),
        doh_url: opt_text(doh),
        dot_host: opt_text(dot),
        favorite,
        preset: true,
    }
}

/// The built-in provider profiles.
pub fn default_presets() -> (v: Vec<DnsProfile>)
    ensures
        profile_views(v@) == preset_views(),
{
    let mut v: Vec<DnsProfile> = Vec::new();
    v.push(
        preset(
            "preset_cloudflare",
            "Cloudflare",
            "1.1.1.1",
            Some("1.0.0.1"),
            Some("2606:4700:4700::1111"),
            Some("2606:4700:4700::1001"),
            Some("https://cloudflare-dns.com/dns-query"),
            Some("one.one.one.one"),
            true,
        ),
    );
    v.push(
        preset(
            "preset_google",
            "Google",
            "8.8.8.8",
            Some("8.8.4.4"),
            Some("2001:4860:4860::8888"),
            Some("2001:4860:4860::8844"),
            Some("https://dns.google/dns-query"),
            Some("dns.google"),
            false,
        ),
    );
    v.push(
        preset(
            "preset_quad9",
            "Quad9",
            "9.9.9.9",
            Some("149.112.112.112"),
            Some("2620:fe::fe"),
            Some("2620:fe::9"),
            Some("https://dns.quad9.net/dns-query"),
            Some("dns.quad9.net"),
            false,
        ),
    );
    v.push(
        preset(
            "preset_adguard",
            "AdGuard",
            "94.140.14.14",
            Some("94.140.15.15"),
            Some("2a10:50c0::ad1:ff"),
            Some("2a10:50c0::ad2:ff"),
            Some("https://dns.adguard-dns.com/dns-query"),
            Some("dns.adguard-dns.com"),
            false,
        ),
    );
    v.push(
        preset(
            "preset_opendns",
            "OpenDNS",
            "208.67.222.222",
            Some("208.67.220.220"),
            Some("2620:119:35::35"),
            Some("2620:119:53::53"),
            None,
            None,
            false,
        ),
    );
    v.push(
        preset(
            "preset_mullvad",
            "Mullvad",
            "194.242.2.2",
            Some("194.242.2.3"),
            Some("2a07:a4c0::2"),
            Some("2a07:e3400::3"),
            Some("https://doh.mullvad.net/dns-query"),
            Some("doh.mullvad.net"),
            false,
        ),
    );
    v.push(
        preset(
            "preset_shecan",
            "Shecan",
            "178.22.122.100",
            Some("185.51.200.2"),
            None,
            None,
            None,
            None,
            false,
        ),
    );
    v.push(
        preset(
            "preset_electro",
            "Electro",
            "78.157.42.100",
            Some("78.157.42.101"),
            None,
            None,
            None,
            None,
            false,
        ),
    );
    v.push(
        preset(
            "preset_403online",
            "403.online",
            "10.202.10.10",
            Some("10.202.10.11"),
            None,
            None,
            None,
            None,
            false,
        ),
    );
    v.push(
        preset(
            "preset_radargame",
            "Radar Game",
            "10.202.10.10",
            Some("10.202.11.11"),
            None,
            None,
            None,
            None,
            false,
        ),
    );
    assert(profile_views(v@) =~= preset_views());
    v
}

/// The settings of a fresh configuration.
pub open spec fn is_default_settings(s: AppSettings) -> bool {
    &&& s.theme@ == "dark"@
    &&& !s.doh_enabled
    &&& s.dns_encryption_type@ == "doh"@
    &&& !s.ipv6_enabled
    &&& !s.minimize_to_tray
    &&& !s.start_on_boot
    &&& s.active_adapter_id is None
    &&& target_views(s.diagnostic_targets@) == default_target_views()
    &&& s.auto_ping_enabled
    &&& !s.auto_update
}

/// A fresh configuration.
pub open spec fn is_default_config(c: AppConfig) -> bool {
    &&& c.active_profile_id is None
    &&& !c.is_connected
    &&& profile_views(c.profiles@) == preset_views()
    &&& c.history@.len() == 0
    &&& c.rules@.len() == 0
    &&& c.auto_switch_rules@.len() == 0
    &&& !c.auto_switch_enabled
    &&& is_default_settings(c.settings)
    &&& c.schema_version == SCHEMA_VERSION
}

impl AppConfig {
    /// A fresh configuration: the built-in presets, the default diagnostic
    /// targets and default settings.
    pub fn new_default() -> (c: AppConfig)
        ensures
            is_default_config(c),
    {
        AppConfig {
            active_profile_id: None,
            is_connected: false,
            profiles: default_presets(),
            history: Vec::new(),
            rules: Vec::new(),
            auto_switch_rules: Vec::new(),
            auto_switch_enabled: false,
            settings: AppSettings {
                theme: "dark".to_owned(),
                doh_enabled: false,
                dns_encryption_type: "doh".to_owned(),
                ipv6_enabled: false,
                minimize_to_tray: false,
                start_on_boot: false,
                active_adapter_id: None,
                diagnostic_targets: default_diag_targets(),
                auto_ping_enabled: true,
                auto_update: false,
            },
            schema_version: 3,
        }
    }
}

impl Default for AppConfig {
    fn default() -> (c: AppConfig)
        ensures
            is_default_config(c),
    {
        AppConfig::new_default()
    }
}

} // verus!
