use sparkdns::models::RunningProcess;
use sparkdns::process_watcher::{record_process, running_contains};
use sparkdns::process_watcher::{render_proc_listing, running_names, ProcEntry};
use sparkdns::models::OsKind;
use sparkdns::process_watcher::process_listing_command;
use sparkdns::models::AutoSwitchRule;
use sparkdns::process_watcher::{decide, matching_rule, normalize_match_name, parse_processes, WatcherDecision};

fn rule(name: &str, profile: &str, enabled: bool) -> AutoSwitchRule {
    AutoSwitchRule {
        id: format!("r_{name}"),
        app_label: name.to_string(),
        match_name: name.to_string(),
        app_path: None,
        profile_id: profile.to_string(),
        enabled,
    }
}

fn set(items: &[&str]) -> Vec<String> {
    items.iter().map(|s| s.to_string()).collect()
}

#[test]
fn parse_processes_dedupes_and_lowercases() {
    let raw = "Chrome.EXE|\"C:\\Program Files\\Google\\Chrome\\Application\\chrome.exe\"\n\
               chrome.exe|duplicate\n\
               \n\
               firefox|some/path\n\
               |empty-name\n";
    let procs = parse_processes(raw);
    let names: Vec<&str> = procs.iter().map(|p| p.name.as_str()).collect();
    assert_eq!(names, vec!["chrome.exe", "firefox"]);
    assert_eq!(
        procs[0].path.as_deref(),
        Some("C:\\Program Files\\Google\\Chrome\\Application\\chrome.exe")
    );
}

#[test]
fn normalize_match_name_handles_paths_and_case() {
    assert_eq!(normalize_match_name("C:\\Games\\steam.exe"), "steam.exe");
    assert_eq!(
        normalize_match_name("/Applications/Steam.app/Contents/MacOS/steam"),
        "steam"
    );
    assert_eq!(normalize_match_name("CHROME.EXE"), "chrome.exe");
    assert_eq!(normalize_match_name("\"weird name.exe\""), "weird name.exe");
}

#[test]
fn matching_rule_skips_disabled() {
    let rules = vec![rule("steam", "p1", false), rule("chrome", "p2", true)];
    let running = set(&["chrome", "steam"]);
    let m = matching_rule(&rules, &running).unwrap();
    assert_eq!(m.profile_id, "p2");
}

#[test]
fn matching_rule_returns_none_when_no_match() {
    let rules = vec![rule("steam", "p1", true)];
    let running = set(&["chrome"]);
    assert!(matching_rule(&rules, &running).is_none());
}

#[test]
fn decide_switches_when_new_match_appears() {
    let rules = vec![rule("steam", "p_steam", true)];
    let running = set(&["steam", "chrome"]);
    let d = decide(&rules, &running, Some("p_old"), None);
    assert_eq!(d, WatcherDecision::Switched("p_steam".into()));
}

#[test]
fn decide_idle_when_already_on_that_profile() {
    let rules = vec![rule("steam", "p_steam", true)];
    let running = set(&["steam"]);
    let d = decide(&rules, &running, Some("p_steam"), Some("p_steam"));
    assert_eq!(d, WatcherDecision::Idle);
}

#[test]
fn decide_reverts_when_last_watched_app_exits() {
    let rules = vec![rule("steam", "p_steam", true)];
    let running = set(&["chrome"]);
    let d = decide(&rules, &running, Some("p_steam"), Some("p_steam"));
    assert_eq!(d, WatcherDecision::Reverted(None));
}

#[test]
fn decide_idle_when_nothing_watched_was_active() {
    let rules = vec![rule("steam", "p_steam", true)];
    let running = set(&["chrome"]);
    let d = decide(&rules, &running, Some("p_old"), None);
    assert_eq!(d, WatcherDecision::Idle);
}

#[test]
fn matching_rule_takes_first_enabled_in_rule_order() {
    let rules = vec![
        rule("chrome", "p_first", true),
        rule("steam", "p_second", true),
    ];
    let running = set(&["steam", "chrome"]);
    assert_eq!(matching_rule(&rules, &running).unwrap().profile_id, "p_first");
}

#[test]
fn switch_then_settle_on_same_processes() {
    let rules = vec![rule("steam", "p_steam", true)];
    let running = set(&["steam"]);
    let d = decide(&rules, &running, None, None);
    assert_eq!(d, WatcherDecision::Switched("p_steam".into()));
    let again = decide(&rules, &running, Some("p_steam"), Some("p_steam"));
    assert_eq!(again, WatcherDecision::Idle);
}

#[test]
fn parse_processes_trims_and_keeps_missing_path_empty() {
    let procs = parse_processes("  Steam.exe  \nbash|  \n");
    assert_eq!(procs.len(), 2);
    assert_eq!(procs[0].name, "steam.exe");
    assert_eq!(procs[0].path, None);
    assert_eq!(procs[1].name, "bash");
}

#[test]
fn normalize_match_name_of_blank_is_empty() {
    assert_eq!(normalize_match_name("   "), "");
    assert_eq!(normalize_match_name("Dir/"), "dir");
}

#[test]
fn proc_listing_keeps_the_first_of_each_name() {
    let e = |name: &str, comm: Option<&str>, exe: &str| ProcEntry {
        name: name.into(),
        comm: comm.map(|s| s.to_string()),
        exe: exe.into(),
    };
    let listing = render_proc_listing(&[
        e("1", Some("systemd\n"), "/usr/lib/systemd/systemd"),
        e("self", Some("bash\n"), "/bin/bash"),
        e("42", Some("Steam\n"), ""),
        e("43", Some("steam\n"), "/usr/bin/steam"),
        e("44", None, "/x"),
        e("45", Some("  \n"), "/y"),
    ]);
    assert_eq!(listing, "systemd|/usr/lib/systemd/systemd\nSteam\n");
    let procs = parse_processes(&listing);
    assert_eq!(running_names(&procs), vec!["systemd", "steam"]);
}

#[test]
fn process_listing_commands() {
    assert!(process_listing_command(OsKind::Linux).is_none());
    let w = process_listing_command(OsKind::Windows).unwrap();
    assert_eq!(w[0], "powershell");
    assert!(w[4].contains("Get-Process"));
    let m = process_listing_command(OsKind::Macos).unwrap();
    assert_eq!(&m[..2], &["/bin/sh".to_string(), "-c".to_string()]);
    assert!(m[2].starts_with("ps -axo comm="));
}

#[test]
fn bare_names_are_only_lowercased() {
    assert_eq!(normalize_match_name("Steam.EXE"), "steam.exe");
    let once = normalize_match_name("  \"C:\\Games\\Steam.EXE\"  ");
    assert_eq!(once, "steam.exe");
    assert_eq!(normalize_match_name(&once), once);
    assert_eq!(normalize_match_name("/a/ B"), " b");
}

#[test]
fn running_names_and_records_after_lowering() {
    let running = vec!["steam.exe".to_string(), "chrome".to_string()];
    assert!(running_contains(&running, "steam.exe"));
    assert!(!running_contains(&running, "Steam.exe"));
    assert!(!running_contains(&[], "steam.exe"));
    let mut out: Vec<RunningProcess> = Vec::new();
    record_process(&mut out, "steam".into(), Some("/usr/bin/steam".into()));
    record_process(&mut out, "steam".into(), None);
    record_process(&mut out, "chrome".into(), None);
    let names: Vec<(&str, Option<&str>)> =
        out.iter().map(|p| (p.name.as_str(), p.path.as_deref())).collect();
    assert_eq!(names, vec![("steam", Some("/usr/bin/steam")), ("chrome", None)]);
}
