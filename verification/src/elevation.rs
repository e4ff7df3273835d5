//! Privilege elevation: each platform raises its native authentication prompt
//! for one privileged operation (UAC through `Start-Process -Verb RunAs` on
//! Windows, the administrator prompt of `osascript` on macOS, `pkexec` on
//! Linux). This module builds the scripts and argument lists and reads the
//! outcome of the run; the run itself happens outside the library.
use vstd::prelude::*;

use crate::command_runner::{combined_text, RunOutput};
use crate::errors::{error_text, AppResult};
use crate::text::{chars_of, concat, contains, i64_text, int_text, lowercase, replace_char, replaced, str_contains, to_lowercase};
use crate::validation::{sanitize_output, sanitized};

verus! {

/// Result of an attempt to run a privileged command.
#[derive(Debug, Clone)]
pub struct ElevatedOutcome {
    /// The privileged command completed successfully.
    pub success: bool,
    /// The user dismissed or cancelled the elevation prompt.
    pub cancelled: bool,
    /// Human-readable message (error detail when `success` is false).
    pub message: String,
}

impl ElevatedOutcome {
    /// The command succeeded.
    pub fn ok() -> (r: Self)
        ensures
            r.success && !r.cancelled && r.message@.len() == 0,
    {
        ElevatedOutcome { success: true, cancelled: false, message: String::new() }
    }

    /// The prompt was dismissed.
    pub fn cancelled() -> (r: Self)
        ensures
            !r.success && r.cancelled && r.message@ == "Elevation request was cancelled."@,
    {
        ElevatedOutcome {
            success: false,
            cancelled: true,
            message: "Elevation request was cancelled.".to_owned(),
        }
    }

    /// The command failed for another reason.
    pub fn failed(message: &str) -> (r: Self)
        ensures
            !r.success && !r.cancelled && r.message@ == message@,
    {
        ElevatedOutcome { success: false, cancelled: false, message: message.to_owned() }
    }
}

/// How an attempt ended, as the three constructors of [`ElevatedOutcome`]
/// make it.
pub open spec fn is_ok_outcome(o: ElevatedOutcome) -> bool {
    o.success && !o.cancelled && o.message@.len() == 0
}

pub open spec fn is_cancelled_outcome(o: ElevatedOutcome) -> bool {
    !o.success && o.cancelled && o.message@ == "Elevation request was cancelled."@
}

pub open spec fn is_failed_outcome(o: ElevatedOutcome, m: Seq<char>) -> bool {
    !o.success && !o.cancelled && o.message@ == m
}

/// Windows error code returned when the user declines the UAC prompt.
pub const ERROR_CANCELLED: i32 = 1223;

/// A PowerShell body inside a try/catch that yields deterministic exit codes.
pub open spec fn wrapped_ps_body(body: Seq<char>) -> Seq<char> {
    "$ErrorActionPreference='Stop';\ntry {\n"@ + body + "\nexit 0\n} catch { exit 1 }"@
}

/// Wrap a PowerShell body in a try/catch that yields deterministic exit codes.
pub fn wrap_ps_body(body: &str) -> (r: String)
    ensures
        r@ == wrapped_ps_body(body@),
{
    let a = concat("$ErrorActionPreference='Stop';\ntry {\n", body);
    concat(a.as_str(), "\nexit 0\n} catch { exit 1 }")
}

/// The non-elevated launcher that starts the elevated PowerShell child on the
/// script file at `path`, waits for it and exits with its code; a declined
/// prompt exits with [`ERROR_CANCELLED`].
pub open spec fn ps_launcher_script(path: Seq<char>) -> Seq<char> {
    "$ErrorActionPreference='Stop';\ntry { $p = Start-Process -FilePath 'powershell' -ArgumentList @('-NoProfile','-NonInteractive','-ExecutionPolicy','Bypass','-WindowStyle','Hidden','-File','"@
        + replace_char(path, '\'', "''"@)
        + "') -Verb RunAs -WindowStyle Hidden -PassThru -Wait; exit $p.ExitCode } catch { exit "@
        + int_text(ERROR_CANCELLED as int) + " }"@
}

/// Build the launcher for the elevated PowerShell script stored at `path`.
pub fn ps_launcher(path: &str) -> (r: String)
    ensures
        r@ == ps_launcher_script(path@),
{
    let v = chars_of(path);
    let quoted = replaced(&v, '\'', "''");
    let a = concat(
        "$ErrorActionPreference='Stop';\ntry { $p = Start-Process -FilePath 'powershell' -ArgumentList @('-NoProfile','-NonInteractive','-ExecutionPolicy','Bypass','-WindowStyle','Hidden','-File','",
        quoted.as_str(),
    );
    let b = concat(
        a.as_str(),
        "') -Verb RunAs -WindowStyle Hidden -PassThru -Wait; exit $p.ExitCode } catch { exit ",
    );
    let c = concat(b.as_str(), i64_text(ERROR_CANCELLED as i64).as_str());
    concat(c.as_str(), " }")
}

/// Read the outcome of the PowerShell launcher.
pub fn powershell_outcome(run: &AppResult<RunOutput>) -> (r: ElevatedOutcome)
    ensures
        match run {
            Ok(o) => if o.status == ERROR_CANCELLED {
                is_cancelled_outcome(r)
            } else if o.status == 0 {
                is_ok_outcome(r)
            } else {
                is_failed_outcome(
                    r,
                    "Elevated command failed (exit "@ + int_text(o.status as int) + ")."@,
                )
            },
            Err(e) => is_failed_outcome(r, sanitized(error_text(*e))),
        },
{
    match run {
        Ok(o) => {
            if o.status == ERROR_CANCELLED {
                ElevatedOutcome::cancelled()
            } else if o.success() {
                ElevatedOutcome::ok()
            } else {
                let a = concat("Elevated command failed (exit ", i64_text(o.status as i64).as_str());
                let m = concat(a.as_str(), ").");
                ElevatedOutcome::failed(m.as_str())
            }
        },
        Err(e) => ElevatedOutcome::failed(sanitize_output(e.message().as_str()).as_str()),
    }
}

/// The AppleScript that runs `command` with administrator privileges, with
/// backslashes and double quotes escaped for the AppleScript string.
pub open spec fn apple_script(command: Seq<char>) -> Seq<char> {
    "do shell script \""@ + replace_char(replace_char(command, '\\', "\\\\"@), '"', "\\\""@)
        + "\" with administrator privileges"@
}

/// The arguments of `osascript` that run `command` with administrator
/// privileges.
pub fn shell_elevated_args(command: &str) -> (r: Vec<String>)
    ensures
        r@.len() == 2,
        r@[0]@ == "-e"@,
        r@[1]@ == apple_script(command@),
{
    let v = chars_of(command);
    let once = replaced(&v, '\\', "\\\\");
    let w = chars_of(once.as_str());
    let twice = replaced(&w, '"', "\\\"");
    let a = concat("do shell script \"", twice.as_str());
    let script = concat(a.as_str(), "\" with administrator privileges");
    let mut r: Vec<String> = Vec::new();
    r.push("-e".to_owned());
    r.push(script);
    r
}

/// The outcome of an `osascript` run that failed, given its output and that
/// output lower-cased: a dismissed prompt reports -128 or mentions a cancel.
pub fn failed_shell_outcome(combined: &str, lowered: &str) -> (r: ElevatedOutcome)
    ensures
        if contains(combined@, "-128"@) || contains(lowered@, "cancel"@) {
            is_cancelled_outcome(r)
        } else {
            is_failed_outcome(r, sanitized(combined@))
        },
{
    if str_contains(combined, "-128") || str_contains(lowered, "cancel") {
        ElevatedOutcome::cancelled()
    } else {
        ElevatedOutcome::failed(sanitize_output(combined).as_str())
    }
}

/// Read the outcome of the `osascript` run: a dismissed prompt reports -128
/// or mentions a cancel.
pub fn shell_outcome(run: &AppResult<RunOutput>) -> (r: ElevatedOutcome)
    ensures
        match run {
            Ok(o) => if o.status == 0 {
                is_ok_outcome(r)
            } else if contains(combined_text(*o), "-128"@) || contains(
                lowercase(combined_text(*o)),
                "cancel"@,
            ) {
                is_cancelled_outcome(r)
            } else {
                is_failed_outcome(r, sanitized(combined_text(*o)))
            },
            Err(e) => is_failed_outcome(r, sanitized(error_text(*e))),
        },
{
    match run {
        Ok(o) => {
            if o.success() {
                ElevatedOutcome::ok()
            } else {
                let combined = o.combined();
                let lower = to_lowercase(combined.as_str());
                failed_shell_outcome(combined.as_str(), lower.as_str())
            }
        },
        Err(e) => ElevatedOutcome::failed(sanitize_output(e.message().as_str()).as_str()),
    }
}

/// The message when `pkexec` is missing.
pub open spec fn pkexec_missing_message() -> Seq<char> {
    "pkexec (PolicyKit) is required to authorize this change but was not found."@
}

/// The arguments of `pkexec` that run `program` with `args` as root.
pub fn pkexec_args(program: &str, args: &[&str]) -> (r: Vec<String>)
    ensures
        r@.len() == args@.len() + 1,
        r@[0]@ == program@,
        forall|i: int| 0 <= i < args@.len() ==> (#[trigger] r@[i + 1])@ == args@[i]@,
{
    let mut r: Vec<String> = Vec::new();
    r.push(program.to_owned());
    let n = args.len();
    for i in 0..n
        invariant
            n == args@.len(),
            r@.len() == i + 1,
            r@[0]@ == program@,
            forall|j: int| 0 <= j < i ==> (#[trigger] r@[j + 1])@ == args@[j]@,
    {
        r.push(args[i].to_owned());
    }
    r
}

/// Read the outcome of the `pkexec` run, given whether `pkexec` was found;
/// status 126 (dialog dismissed) and 127 (not authorized) count as cancelled.
pub fn argv_outcome(pkexec_found: bool, run: &AppResult<RunOutput>) -> (r: ElevatedOutcome)
    ensures
        !pkexec_found ==> is_failed_outcome(r, pkexec_missing_message()),
        pkexec_found ==> match run {
            Ok(o) => if o.status == 0 {
                is_ok_outcome(r)
            } else if o.status == 126 || o.status == 127 {
                is_cancelled_outcome(r)
            } else {
                is_failed_outcome(r, sanitized(combined_text(*o)))
            },
            Err(e) => is_failed_outcome(r, sanitized(error_text(*e))),
        },
{
    if !pkexec_found {
        return ElevatedOutcome::failed(
            "pkexec (PolicyKit) is required to authorize this change but was not found.",
        );
    }
    match run {
        Ok(o) => {
            if o.success() {
                ElevatedOutcome::ok()
            } else if o.status == 126 || o.status == 127 {
                ElevatedOutcome::cancelled()
            } else {
                ElevatedOutcome::failed(sanitize_output(o.combined().as_str()).as_str())
            }
        },
        Err(e) => ElevatedOutcome::failed(sanitize_output(e.message().as_str()).as_str()),
    }
}

} // verus!
