use sparkdns::config::{check_import_text, migrate_config};
use sparkdns::models::{AppConfig, AppSettings, CommandResult, DnsProfile, SCHEMA_VERSION};

#[test]
fn test_command_result_ok() {
    let r = CommandResult::ok("success");
    assert!(r.ok);
    assert!(!r.requires_elevation);
}

#[test]
fn test_command_result_err() {
    let r = CommandResult::err("failure");
    assert!(!r.ok);
    assert!(!r.requires_elevation);
}

#[test]
fn test_command_result_err_elevation() {
    let r = CommandResult::err_elevation("need admin");
    assert!(!r.ok);
    assert!(r.requires_elevation);
}

#[test]
fn test_config_default() {
    let cfg = AppConfig::default();
    assert!(!cfg.profiles.is_empty());
    assert!(cfg.profiles.iter().any(|p| p.id == "preset_cloudflare"));
    assert!(!cfg.settings.diagnostic_targets.is_empty());
    assert_eq!(cfg.schema_version, SCHEMA_VERSION);
}

#[test]
fn migrate_merges_missing_presets() {
    let mut cfg = AppConfig {
        profiles: vec![],
        settings: AppSettings {
            theme: "dark".into(),
            doh_enabled: false,
            dns_encryption_type: "doh".into(),
            ipv6_enabled: false,
            minimize_to_tray: false,
            start_on_boot: false,
            active_adapter_id: None,
            diagnostic_targets: vec![],
            auto_ping_enabled: true,
            auto_update: false,
        },
        schema_version: 0,
        ..AppConfig::default()
    };
    migrate_config(&mut cfg).unwrap();
    assert!(cfg.profiles.iter().any(|p| p.id == "preset_cloudflare"));
    assert!(!cfg.settings.diagnostic_targets.is_empty());
    assert_eq!(cfg.schema_version, SCHEMA_VERSION);
}

#[test]
fn migrate_rejects_future_schema() {
    let mut cfg = AppConfig::default();
    cfg.schema_version = SCHEMA_VERSION + 1;
    assert!(migrate_config(&mut cfg).is_err());
}

#[test]
fn migrate_preserves_existing_custom_profiles() {
    let custom = DnsProfile {
        id: "custom_test".into(),
        name: "Custom Test".into(),
        primary_ipv4: "1.2.3.4".into(),
        secondary_ipv4: None,
        primary_ipv6: None,
        secondary_ipv6: None,
        doh_url: None,
        dot_host: None,
        favorite: false,
        preset: false,
    };
    let mut cfg = AppConfig::default();
    cfg.profiles.clear();
    cfg.profiles.push(custom);
    migrate_config(&mut cfg).unwrap();
    assert!(cfg.profiles.iter().any(|p| p.id == "custom_test"));
    assert!(cfg.profiles.iter().any(|p| p.id == "preset_cloudflare"));
}

#[test]
fn migrate_future_schema_message_and_state() {
    let mut cfg = AppConfig::default();
    cfg.schema_version = 7;
    let err = migrate_config(&mut cfg).unwrap_err();
    assert_eq!(err.message(), "Configuration error: Config schema version 7 is newer than supported 3");
    assert_eq!(cfg.schema_version, 7);
}

#[test]
fn migrate_is_idempotent_and_keeps_order() {
    let mut cfg = AppConfig::default();
    cfg.profiles.retain(|p| p.id != "preset_google" && p.id != "preset_quad9");
    cfg.profiles.insert(0, DnsProfile { id: "mine".into(), name: "Mine".into(), primary_ipv4: "1.2.3.4".into(), secondary_ipv4: None, primary_ipv6: None, secondary_ipv6: None, doh_url: None, dot_host: None, favorite: false, preset: false });
    cfg.settings.diagnostic_targets[0].id = "google".into();
    cfg.schema_version = 1;
    migrate_config(&mut cfg).unwrap();
    let ids: Vec<&str> = cfg.profiles.iter().map(|p| p.id.as_str()).collect();
    assert_eq!(
        ids,
        vec![
            "mine", "preset_cloudflare", "preset_adguard", "preset_opendns", "preset_mullvad",
            "preset_shecan", "preset_electro", "preset_403online", "preset_radargame",
            "preset_google", "preset_quad9",
        ]
    );
    assert_eq!(cfg.settings.diagnostic_targets[0].id, "google");
    let before: Vec<String> = cfg.profiles.iter().map(|p| p.id.clone()).collect();
    migrate_config(&mut cfg).unwrap();
    let after: Vec<String> = cfg.profiles.iter().map(|p| p.id.clone()).collect();
    assert_eq!(before, after);
}

#[test]
fn import_rejects_empty() {
    assert!(check_import_text("").is_err());
    assert!(check_import_text("   ").is_err());
}

#[test]
fn import_text_must_not_be_blank() {
    match check_import_text(" \n\t") {
        Err(sparkdns::errors::AppError::Config(m)) => assert_eq!(m, "Import data is empty"),
        other => panic!("unexpected {other:?}"),
    }
    assert!(check_import_text("{}").is_ok());
}

#[test]
fn default_presets_follow_the_provider_table() {
    let cfg = AppConfig::default();
    let rows: Vec<(&str, &str, Option<&str>)> = cfg
        .profiles
        .iter()
        .map(|p| (p.name.as_str(), p.primary_ipv4.as_str(), p.secondary_ipv4.as_deref()))
        .collect();
    assert_eq!(
        rows,
        vec![
            ("Cloudflare", "1.1.1.1", Some("1.0.0.1")),
            ("Google", "8.8.8.8", Some("8.8.4.4")),
            ("Quad9", "9.9.9.9", Some("149.112.112.112")),
            ("AdGuard", "94.140.14.14", Some("94.140.15.15")),
            ("OpenDNS", "208.67.222.222", Some("208.67.220.220")),
            ("Mullvad", "194.242.2.2", Some("194.242.2.3")),
            ("Shecan", "178.22.122.100", Some("185.51.200.2")),
            ("Electro", "78.157.42.100", Some("78.157.42.101")),
            ("403.online", "10.202.10.10", Some("10.202.10.11")),
            ("Radar Game", "10.202.10.10", Some("10.202.11.11")),
        ]
    );
    let mullvad = cfg.profiles.iter().find(|p| p.id == "preset_mullvad").unwrap();
    assert_eq!(mullvad.primary_ipv6.as_deref(), Some("2a07:a4c0::2"));
    assert_eq!(mullvad.secondary_ipv6.as_deref(), Some("2a07:e3400::3"));
    assert!(cfg.profiles.iter().all(|p| p.preset));
    for p in &cfg.profiles {
        assert!(sparkdns::validation::validate_profile_id(&p.id).is_ok());
        assert!(sparkdns::validation::validate_ipv4(&p.primary_ipv4).is_ok());
        if let Some(v6) = &p.primary_ipv6 {
            assert!(sparkdns::validation::validate_ipv6(v6).is_ok());
        }
    }
}

#[test]
fn migrate_keeps_user_diagnostic_targets() {
    let mut cfg = AppConfig::default();
    cfg.settings.diagnostic_targets.truncate(1);
    cfg.settings.diagnostic_targets[0].id = "google".into();
    cfg.settings.diagnostic_targets[0].host = "8.8.8.8".into();
    cfg.settings.theme = "light".into();
    cfg.schema_version = 2;
    migrate_config(&mut cfg).unwrap();
    assert_eq!(cfg.settings.diagnostic_targets.len(), 1);
    assert_eq!(cfg.settings.diagnostic_targets[0].id, "google");
    assert_eq!(cfg.settings.diagnostic_targets[0].host, "8.8.8.8");
    assert_eq!(cfg.settings.theme, "light");
    assert_eq!(cfg.schema_version, SCHEMA_VERSION);

    cfg.settings.diagnostic_targets.clear();
    migrate_config(&mut cfg).unwrap();
    assert_eq!(cfg.settings.diagnostic_targets.len(), 7);
    assert_eq!(cfg.settings.diagnostic_targets[0].id, "cf");
}
