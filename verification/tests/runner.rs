use sparkdns::launch::{check_installer_path, check_url, installer_missing, open_url_command};
use sparkdns::process_watcher::listing_output;
use sparkdns::command_runner::{elevation_probe, is_elevated, require_success, RunOutput};
use sparkdns::errors::AppError;
use sparkdns::models::OsKind;

#[test]
fn test_run_output() {
    let out = RunOutput { status: 0, stdout: "hello".to_string(), stderr: String::new() };
    assert!(out.success());
    assert_eq!(out.combined(), "hello");
}

#[test]
fn test_run_output_failure() {
    let out = RunOutput { status: 1, stdout: String::new(), stderr: "error".to_string() };
    assert!(!out.success());
    assert_eq!(out.combined(), "error");
}

#[test]
fn combined_joins_both_streams() {
    let out = RunOutput { status: 2, stdout: "a".into(), stderr: "b".into() };
    assert_eq!(out.combined(), "a\nb");
    assert_eq!(out.sanitized_combined(), "a b");
}

#[test]
fn require_success_passes_and_fails() {
    let ok = RunOutput { status: 0, stdout: "x".into(), stderr: String::new() };
    let r = require_success("nmcli", ok).unwrap();
    assert_eq!(r.stdout, "x");
    let bad = RunOutput { status: 3, stdout: String::new(), stderr: "oops\n".into() };
    match require_success("nmcli", bad) {
        Err(AppError::Command(m)) => assert_eq!(m, "'nmcli' exited with status 3: oops"),
        other => panic!("unexpected {other:?}"),
    }
    let neg = RunOutput { status: -1, stdout: String::new(), stderr: String::new() };
    match require_success("x", neg) {
        Err(AppError::Command(m)) => assert_eq!(m, "'x' exited with status -1: "),
        other => panic!("unexpected {other:?}"),
    }
}

#[test]
fn elevation_probe_and_reading() {
    assert_eq!(elevation_probe(OsKind::Windows), vec!["net", "session"]);
    assert_eq!(elevation_probe(OsKind::Linux), vec!["id", "-u"]);
    let root = RunOutput { status: 0, stdout: "0\n".into(), stderr: String::new() };
    assert!(is_elevated(OsKind::Linux, &Ok(root.clone())));
    let user = RunOutput { status: 0, stdout: "1000\n".into(), stderr: String::new() };
    assert!(!is_elevated(OsKind::Macos, &Ok(user)));
    let failed = RunOutput { status: 2, stdout: String::new(), stderr: String::new() };
    assert!(!is_elevated(OsKind::Windows, &Ok(failed)));
    assert!(is_elevated(OsKind::Windows, &Ok(root)));
    assert!(!is_elevated(OsKind::Linux, &Err(AppError::Io("x".into()))));
}

#[test]
fn launch_checks_and_commands() {
    assert!(check_installer_path("  ").is_err());
    assert!(check_installer_path("/tmp/setup.exe").is_ok());
    assert!(check_url("").is_err());
    assert!(check_url("https://example.com").is_ok());
    match installer_missing("C:\\x\u{0}.exe") {
        AppError::Validation(m) => assert_eq!(m, "Installer not found at: C:\\x.exe"),
        other => panic!("unexpected {other:?}"),
    }
    assert_eq!(open_url_command(OsKind::Windows, "u"), vec!["cmd", "/C", "start", "", "u"]);
    assert_eq!(open_url_command(OsKind::Macos, "u"), vec!["open", "u"]);
    assert_eq!(open_url_command(OsKind::Linux, "u"), vec!["xdg-open", "u"]);
}

#[test]
fn listing_output_per_platform() {
    let o = RunOutput { status: 0, stdout: "a\u{7}b".into(), stderr: "c".into() };
    assert_eq!(listing_output(OsKind::Windows, &Ok(o.clone())), "a\u{7}b\nc");
    assert_eq!(listing_output(OsKind::Macos, &Ok(o)), "ab c");
    assert_eq!(listing_output(OsKind::Macos, &Err(AppError::Timeout("t".into()))), "");
}
