use sparkdns::elevation::failed_shell_outcome;
use sparkdns::command_runner::RunOutput;
use sparkdns::errors::AppError;
use sparkdns::elevation::{
    argv_outcome, pkexec_args, powershell_outcome, ps_launcher, shell_elevated_args, shell_outcome,
    wrap_ps_body, ElevatedOutcome,
};

fn out(status: i32, stdout: &str, stderr: &str) -> RunOutput {
    RunOutput { status, stdout: stdout.to_string(), stderr: stderr.to_string() }
}

#[test]
fn wrap_ps_body_has_trycatch_and_exit_codes() {
    let wrapped = wrap_ps_body("Set-DnsClientServerAddress -InterfaceIndex 1");
    assert!(wrapped.contains("try {"));
    assert!(wrapped.contains("exit 0"));
    assert!(wrapped.contains("exit 1"));
    assert!(wrapped.contains("$ErrorActionPreference='Stop'"));
}

#[test]
fn outcome_states_are_distinct() {
    let ok = ElevatedOutcome::ok();
    assert!(ok.success && !ok.cancelled);
    let cancelled = ElevatedOutcome::cancelled();
    assert!(!cancelled.success && cancelled.cancelled);
    let failed = ElevatedOutcome::failed("boom");
    assert!(!failed.success && !failed.cancelled);
    assert_eq!(failed.message, "boom");
}

#[test]
fn wrap_ps_body_exact_text() {
    assert_eq!(
        wrap_ps_body("X"),
        "$ErrorActionPreference='Stop';\ntry {\nX\nexit 0\n} catch { exit 1 }"
    );
}

#[test]
fn ps_launcher_doubles_single_quotes_and_uses_cancel_code() {
    let s = ps_launcher("C:\\Temp\\o'brien.ps1");
    assert!(s.contains("'-File','C:\\Temp\\o''brien.ps1')"));
    assert!(s.ends_with("catch { exit 1223 }"));
    assert!(s.contains("-Verb RunAs"));
}

#[test]
fn powershell_outcome_maps_exit_codes() {
    assert!(powershell_outcome(&Ok(out(0, "", ""))).success);
    let c = powershell_outcome(&Ok(out(1223, "", "")));
    assert!(c.cancelled && !c.success);
    let f = powershell_outcome(&Ok(out(5, "", "")));
    assert_eq!(f.message, "Elevated command failed (exit 5).");
    let e = powershell_outcome(&Err(AppError::Io("spawn failed".into())));
    assert!(!e.success && !e.cancelled);
    assert_eq!(e.message, "IO error: spawn failed");
}

#[test]
fn shell_elevated_args_escapes_quotes_and_backslashes() {
    let args = shell_elevated_args("echo \"a\\b\"");
    assert_eq!(args.len(), 2);
    assert_eq!(args[0], "-e");
    assert_eq!(
        args[1],
        "do shell script \"echo \\\"a\\\\b\\\"\" with administrator privileges"
    );
}

#[test]
fn shell_outcome_detects_cancel() {
    assert!(shell_outcome(&Ok(out(0, "", ""))).success);
    assert!(shell_outcome(&Ok(out(1, "", "execution error: User canceled. (-128)"))).cancelled);
    assert!(shell_outcome(&Ok(out(1, "", "CANCELLED by user"))).cancelled);
    let f = shell_outcome(&Ok(out(1, "bad", "worse")));
    assert!(!f.cancelled && !f.success);
    assert_eq!(f.message, "bad worse");
}

#[test]
fn pkexec_args_put_program_first() {
    let a = pkexec_args("resolvectl", &["dns", "eth0", "1.1.1.1"]);
    assert_eq!(a, vec!["resolvectl", "dns", "eth0", "1.1.1.1"]);
}

#[test]
fn argv_outcome_maps_pkexec_codes() {
    let missing = argv_outcome(false, &Ok(out(0, "", "")));
    assert!(!missing.success);
    assert!(missing.message.contains("pkexec"));
    assert!(argv_outcome(true, &Ok(out(0, "", ""))).success);
    assert!(argv_outcome(true, &Ok(out(126, "", ""))).cancelled);
    assert!(argv_outcome(true, &Ok(out(127, "", ""))).cancelled);
    let f = argv_outcome(true, &Ok(out(2, "", "no\u{7}pe")));
    assert_eq!(f.message, "nope");
}

#[test]
fn failed_shell_outcome_reads_cancel() {
    let c = failed_shell_outcome("execution error: User CANCELED.", "execution error: user canceled.");
    assert!(c.cancelled && !c.success);
    let c = failed_shell_outcome("error (-128)", "error (-128)");
    assert!(c.cancelled);
    let c = failed_shell_outcome("Cancel", "x");
    assert!(!c.cancelled && !c.success);
    assert_eq!(c.message, "Cancel");
    let f = failed_shell_outcome(" boom\u{7} ", " boom\u{7} ");
    assert!(!f.cancelled && !f.success);
    assert_eq!(f.message, "boom");
}
