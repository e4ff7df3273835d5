use sparkdns::commands::{
    add_auto_switch_rule, add_rule, delete_profile, mark_applied, mark_cleared, remove_auto_switch_rule,
    remove_rule, save_profile, set_auto_switch_enabled, toggle_auto_switch_rule, toggle_rule,
    update_settings, validate_profile,
};
use sparkdns::errors::AppError;
use sparkdns::models::{AppConfig, AppRule, AutoSwitchRule, CommandResult, DnsProfile};
use sparkdns::platform::detect_capabilities;
use sparkdns::AppState;

fn profile(id: &str, name: &str, ip: &str) -> DnsProfile {
    DnsProfile {
        id: id.into(),
        name: name.into(),
        primary_ipv4: ip.into(),
        secondary_ipv4: Some(String::new()),
        primary_ipv6: None,
        secondary_ipv6: None,
        doh_url: None,
        dot_host: None,
        favorite: false,
        preset: false,
    }
}

fn rule(id: &str, name: &str) -> AppRule {
    AppRule { id: id.into(), app_name: name.into(), app_path: None, profile_id: "p".into(), enabled: true }
}

fn switch_rule(id: &str, label: &str, matcher: &str) -> AutoSwitchRule {
    AutoSwitchRule {
        id: id.into(),
        app_label: label.into(),
        match_name: matcher.into(),
        app_path: None,
        profile_id: "preset_cloudflare".into(),
        enabled: true,
    }
}

fn validation_message<T: std::fmt::Debug>(r: Result<T, AppError>) -> String {
    match r {
        Err(AppError::Validation(m)) => m,
        other => panic!("expected a validation error, got {other:?}"),
    }
}

#[test]
fn save_profile_adds_then_replaces() {
    let mut cfg = AppConfig::new_default();
    let n = cfg.profiles.len();
    save_profile(&mut cfg, profile("mine", "Mine", "9.9.9.9")).unwrap();
    assert_eq!(cfg.profiles.len(), n + 1);
    save_profile(&mut cfg, profile("mine", "Mine 2", "8.8.8.8")).unwrap();
    assert_eq!(cfg.profiles.len(), n + 1);
    assert_eq!(cfg.profiles[n].name, "Mine 2");
    assert_eq!(cfg.profiles[n].primary_ipv4, "8.8.8.8");
}

#[test]
fn save_profile_reports_the_first_problem() {
    let mut cfg = AppConfig::new_default();
    let before = cfg.profiles.len();
    let mut p = profile("ok", " ", "1.1.1.1");
    assert_eq!(validation_message(save_profile(&mut cfg, p.clone())), "Profile name must be 1-64 chars");
    p.name = "Fine".into();
    p.doh_url = Some("http://x".into());
    assert_eq!(validation_message(validate_profile(&p)), "DoH URL must use https://");
    p.doh_url = Some(String::new());
    p.dot_host = Some("bad\nhost".into());
    assert_eq!(validation_message(validate_profile(&p)), "DoT host contains invalid characters");
    assert_eq!(cfg.profiles.len(), before);
}

#[test]
fn delete_profile_deactivates_it() {
    let mut cfg = AppConfig::new_default();
    mark_applied(&mut cfg, "preset_google");
    assert!(cfg.is_connected);
    delete_profile(&mut cfg, "preset_google");
    assert!(cfg.profiles.iter().all(|p| p.id != "preset_google"));
    assert_eq!(cfg.active_profile_id, None);
    assert!(!cfg.is_connected);
    mark_applied(&mut cfg, "preset_quad9");
    delete_profile(&mut cfg, "preset_google");
    assert_eq!(cfg.active_profile_id.as_deref(), Some("preset_quad9"));
    mark_cleared(&mut cfg);
    assert_eq!(cfg.active_profile_id, None);
    assert!(!cfg.is_connected);
}

#[test]
fn rules_are_added_toggled_and_removed() {
    let mut cfg = AppConfig::new_default();
    add_rule(&mut cfg, rule("r1", "Steam")).unwrap();
    assert_eq!(validation_message(add_rule(&mut cfg, rule("r1", "Other"))), "Rule ID already exists");
    assert_eq!(validation_message(add_rule(&mut cfg, rule("r 2", "Other"))), "Profile id may only contain alphanumeric, dash, underscore");
    toggle_rule(&mut cfg, "r1", false);
    assert!(!cfg.rules[0].enabled);
    toggle_rule(&mut cfg, "missing", true);
    assert!(!cfg.rules[0].enabled);
    remove_rule(&mut cfg, "r1");
    assert!(cfg.rules.is_empty());
}

#[test]
fn auto_switch_rules_are_checked() {
    let mut cfg = AppConfig::new_default();
    assert_eq!(
        validation_message(add_auto_switch_rule(&mut cfg, switch_rule("a", "", "steam"))),
        "App label and match name are required"
    );
    add_auto_switch_rule(&mut cfg, switch_rule("a", "Steam", "steam")).unwrap();
    assert_eq!(
        validation_message(add_auto_switch_rule(&mut cfg, switch_rule("a", "Steam", "steam"))),
        "Auto-switch rule ID already exists"
    );
    toggle_auto_switch_rule(&mut cfg, "a", false);
    assert!(!cfg.auto_switch_rules[0].enabled);
    set_auto_switch_enabled(&mut cfg, true);
    assert!(cfg.auto_switch_enabled);
    remove_auto_switch_rule(&mut cfg, "a");
    assert!(cfg.auto_switch_rules.is_empty());
}

#[test]
fn settings_are_replaced() {
    let mut cfg = AppConfig::new_default();
    let mut s = cfg.settings.clone();
    s.theme = "light".into();
    update_settings(&mut cfg, s);
    assert_eq!(cfg.settings.theme, "light");
}

#[test]
fn state_records_only_successful_changes() {
    let caps = detect_capabilities(sparkdns::models::OsKind::Linux, "networkmanager");
    let mut state = AppState::new(AppConfig::new_default(), caps);
    state.record_apply("preset_quad9", &CommandResult::err("no"));
    assert_eq!(state.config.active_profile_id, None);
    state.record_apply("preset_quad9", &CommandResult::ok("yes"));
    assert_eq!(state.config.active_profile_id.as_deref(), Some("preset_quad9"));
    assert!(state.config.is_connected);
    state.record_clear(&CommandResult::err_elevation("declined"));
    assert!(state.config.is_connected);
    state.record_clear(&CommandResult::ok("cleared"));
    assert_eq!(state.config.active_profile_id, None);
    assert!(!state.config.is_connected);
    assert_eq!(state.caps.dns_backend, "networkmanager");
}
