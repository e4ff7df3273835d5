//! The captured output of a system command and the decisions taken on it.
//! Spawning the command happens outside the library; it hands the output here.
use vstd::prelude::*;

use crate::errors::{AppError, AppResult};
use crate::models::OsKind;
use crate::text::{chars_of, concat, i64_text, int_text, str_eq, string_vec, trim, trimmed, string_of};
use crate::validation::{sanitize_output, sanitized};

verus! {

/// Output of a command run.
#[derive(Debug, Clone)]
pub struct RunOutput {
    pub status: i32,
    pub stdout: String,
    pub stderr: String,
}

/// Standard output and standard error joined by a line break, each only when
/// it is not empty.
pub open spec fn combined_text(out: RunOutput) -> Seq<char> {
    let o = out.stdout@;
    let e = out.stderr@;
    if e.len() == 0 {
        o
    } else if o.len() == 0 {
        e
    } else {
        o + "\n"@ + e
    }
}

impl RunOutput {
    /// The command exited with status 0.
    pub fn success(&self) -> (r: bool)
        ensures
            r == (self.status == 0),
    {
        self.status == 0
    }

    /// Standard output and standard error, joined by a line break.
    pub fn combined(&self) -> (r: String)
        ensures
            r@ == combined_text(*self),
    {
        let mut s = String::new();
        if !self.stdout.as_str().is_empty() {
            s.append(self.stdout.as_str());
        }
        if !self.stderr.as_str().is_empty() {
            if !s.as_str().is_empty() {
                s.append("\n");
            }
            s.append(self.stderr.as_str());
        }
        proof {
            reveal_strlit("");
        }
        assert(Seq::<char>::empty() + self.stdout@ =~= self.stdout@);
        assert(Seq::<char>::empty() + self.stderr@ =~= self.stderr@);
        s
    }

    /// The joined output, sanitised for display.
    pub fn sanitized_combined(&self) -> (r: String)
        ensures
            r@ == sanitized(combined_text(*self)),
    {
        let c = self.combined();
        sanitize_output(c.as_str())
    }
}

/// The message of a command that exited with a failure status.
pub open spec fn failure_message(program: Seq<char>, out: RunOutput) -> Seq<char> {
    "'"@ + program + "' exited with status "@ + int_text(out.status as int) + ": "@ + sanitized(
        combined_text(out),
    )
}

/// The command error for a run of `program` that exited with a failure
/// status: it quotes the program, the status and the sanitised output.
pub fn failure_error(program: &str, out: &RunOutput) -> (r: AppError)
    ensures
        r matches AppError::Command(m) && m@ == failure_message(program@, *out),
{
    let a = concat("'", program);
    let b = concat(a.as_str(), "' exited with status ");
    let c = concat(b.as_str(), i64_text(out.status as i64).as_str());
    let d = concat(c.as_str(), ": ");
    let e = concat(d.as_str(), out.sanitized_combined().as_str());
    AppError::Command(e)
}

/// Pass the output of a successful run through; turn a failure status into a
/// command error that quotes the program, the status and the sanitised output.
pub fn require_success(program: &str, out: RunOutput) -> (r: AppResult<RunOutput>)
    ensures
        out.status == 0 ==> r == Ok::<RunOutput, AppError>(out),
        out.status != 0 ==> (r matches Err(AppError::Command(m)) && m@ == failure_message(
            program@,
            out,
        )),
{
    if out.success() {
        return Ok(out);
    }
    Err(failure_error(program, &out))
}

/// The command that tells whether the process runs with administrator or root
/// rights, as program and arguments.
pub fn elevation_probe(os: OsKind) -> (r: Vec<String>)
    ensures
        os == OsKind::Windows ==> r@.len() == 2 && r@[0]@ == "net"@ && r@[1]@ == "session"@,
        os != OsKind::Windows ==> r@.len() == 2 && r@[0]@ == "id"@ && r@[1]@ == "-u"@,
{
    match os {
        OsKind::Windows => string_vec(&["net", "session"]),
        _ => string_vec(&["id", "-u"]),
    }
}

/// Whether the process runs elevated, judged from the run of
/// [`elevation_probe`]: on Windows the probe succeeds, elsewhere it prints
/// user id 0. A probe that could not run means not elevated.
pub fn is_elevated(os: OsKind, probe: &AppResult<RunOutput>) -> (r: bool)
    ensures
        r == match probe {
            Ok(o) => if os == OsKind::Windows {
                o.status == 0
            } else {
                trim(o.stdout@) == "0"@
            },
            Err(_) => false,
        },
{
    match probe {
        Ok(o) => {
            if os == OsKind::Windows {
                o.success()
            } else {
                let v = chars_of(o.stdout.as_str());
                let t = trimmed(&v);
                let ts = string_of(&t);
                str_eq(ts.as_str(), "0")
            }
        },
        Err(_) => false,
    }
}

} // verus!
