//! Launching an installer or a web page: the checks on the request and the
//! command that opens a URL. Spawning the process happens outside the
//! library.
use vstd::prelude::*;

use crate::errors::{is_validation_err, AppError, AppResult};
use crate::models::OsKind;
use crate::text::{chars_of, concat, string_vec, string_views, trim, trimmed};
use crate::validation::{sanitize_output, sanitized};

verus! {

/// Check the path of an installer before it is looked for: it must not be
/// blank.
pub fn check_installer_path(path: &str) -> (r: AppResult<()>)
    ensures
        r is Ok <==> trim(path@).len() > 0,
        r is Err ==> is_validation_err(r, "Installer path is empty"@),
{
    if trimmed(&chars_of(path)).len() == 0 {
        return Err(AppError::validation("Installer path is empty"));
    }
    Ok(())
}

/// The error for an installer that is not where the path says.
pub fn installer_missing(path: &str) -> (r: AppError)
    ensures
        r matches AppError::Validation(m) && m@ == "Installer not found at: "@ + sanitized(path@),
{
    AppError::Validation(concat("Installer not found at: ", sanitize_output(path).as_str()))
}

/// Check a URL before it is opened: it must not be blank.
pub fn check_url(url: &str) -> (r: AppResult<()>)
    ensures
        r is Ok <==> trim(url@).len() > 0,
        r is Err ==> is_validation_err(r, "URL is empty"@),
{
    if trimmed(&chars_of(url)).len() == 0 {
        return Err(AppError::validation("URL is empty"));
    }
    Ok(())
}

/// The command that opens a URL in the default browser.
pub fn open_url_command(os: OsKind, url: &str) -> (r: Vec<String>)
    ensures
        os == OsKind::Windows ==> string_views(r@) == seq!["cmd"@, "/C"@, "start"@, ""@, url@],
        os == OsKind::Macos ==> string_views(r@) == seq!["open"@, url@],
        os == OsKind::Linux ==> string_views(r@) == seq!["xdg-open"@, url@],
{
    let r = match os {
        OsKind::Windows => string_vec(&["cmd", "/C", "start", "", url]),
        OsKind::Macos => string_vec(&["open", url]),
        OsKind::Linux => string_vec(&["xdg-open", url]),
    };
    proof {
        match os {
            OsKind::Windows => assert(string_views(r@) =~= seq!["cmd"@, "/C"@, "start"@, ""@, url@]),
            OsKind::Macos => assert(string_views(r@) =~= seq!["open"@, url@]),
            OsKind::Linux => assert(string_views(r@) =~= seq!["xdg-open"@, url@]),
        }
    }
    r
}

} // verus!
