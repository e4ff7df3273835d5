//! Decisions of the process watcher behind the auto-switch DNS feature.
//!
//! The watcher polls the OS for running processes on a short interval, then
//! applies or reverts DNS whenever a watched app's state changes:
//!
//! * When a watched app starts running, switch the system DNS to that rule's
//!   profile and remember the previous profile so it can be restored later.
//! * When the last watched app exits, revert DNS.
//!
//! Listing processes and sleeping happen outside the library; this module
//! parses the listing and decides.
use vstd::prelude::*;

use crate::command_runner::{combined_text, RunOutput};
use crate::errors::AppResult;
use crate::models::{AutoSwitchRule, OsKind, RunningProcess};
use crate::validation::{sanitize_output, sanitized};
use crate::text::{
    string_vec, chars_of, lines, lines_of, lowercase, split_once, split_once_at, str_eq, string_of,
    opt_view, string_views, strip, strip_end, strip_start, stripped, to_lowercase, trim, trimmed,
    NestedView,
};

verus! {

/// Polling interval of the watcher loop, in seconds.
pub const POLL_INTERVAL_SECS: u64 = 4;

/// What the watcher does on a poll tick.
#[derive(Debug, Clone, PartialEq, Eq)]
pub enum WatcherDecision {
    /// No watched app is running, nothing to do.
    Idle,
    /// A watched app appeared; switch DNS to the named profile id.
    Switched(String),
    /// Last watched app exited; revert to a previously-active profile id.
    Reverted(Option<String>),
    /// Process listing failed.
    ListError(String),
}

// ---------------------------------------------------------------------------
// Process listings
// ---------------------------------------------------------------------------

/// The record a listing line stands for, as (lower-case name, path): each
/// line is `<name>` or `<name>|<path>`; surrounding whitespace and double
/// quotes are removed; lines without a name stand for nothing.
pub open spec fn process_entry(line: Seq<char>) -> Option<(Seq<char>, Option<Seq<char>>)> {
    let l = trim(line);
    let (name, path) = match split_once(l, '|') {
        Some((n, p)) => (trim(n), Some(trim(p))),
        None => (l, None),
    };
    if l.len() == 0 || name.len() == 0 {
        None
    } else {
        let path = match path {
            Some(p) => if strip(p, '"').len() > 0 {
                Some(strip(p, '"'))
            } else {
                None
            },
            None => None,
        };
        Some((lowercase(strip(name, '"')), path))
    }
}

/// The names of a sequence of records.
pub open spec fn entry_names(r: Seq<(Seq<char>, Option<Seq<char>>)>) -> Seq<Seq<char>> {
    Seq::new(r.len(), |i: int| r[i].0)
}

/// The records of a listing, in order, each name kept once (the first line
/// with a name wins).
pub open spec fn listed_processes(ls: Seq<Seq<char>>) -> Seq<(Seq<char>, Option<Seq<char>>)>
    decreases ls.len(),
{
    if ls.len() == 0 {
        Seq::empty()
    } else {
        let r = listed_processes(ls.drop_last());
        match process_entry(ls.last()) {
            None => r,
            Some(e) => if entry_names(r).contains(e.0) {
                r
            } else {
                r.push(e)
            },
        }
    }
}

/// The (name, path) content of running-process records.
pub open spec fn process_views(p: Seq<RunningProcess>) -> Seq<(Seq<char>, Option<Seq<char>>)> {
    Seq::new(p.len(), |i: int| (p[i].name@, p[i].path.deep_view()))
}

fn entry_of(line: &[char]) -> (r: Option<(String, Option<String>)>)
    ensures
        match r {
            Some((n, p)) => process_entry(line@) == Some((n@, p.deep_view())),
            None => process_entry(line@) is None,
        },
{
    let l = trimmed(line);
    if l.len() == 0 {
        return None;
    }
    let (name, path) = match split_once_at(&l, '|') {
        Some((n, p)) => (trimmed(&n), Some(trimmed(&p))),
        None => (l, None),
    };
    if name.len() == 0 {
        return None;
    }
    let cleaned = string_of(&stripped(&name, '"'));
    let lower = to_lowercase(cleaned.as_str());
    let p = match path {
        Some(p) => {
            let q = stripped(&p, '"');
            if q.len() > 0 {
                Some(string_of(&q))
            } else {
                None
            }
        },
        None => None,
    };
    Some((lower, p))
}

fn name_seen(out: &Vec<RunningProcess>, name: &String) -> (r: bool)
    ensures
        r == entry_names(process_views(out@)).contains(name@),
{
    let n = out.len();
    for i in 0..n
        invariant
            n == out@.len(),
            forall|j: int| 0 <= j < i ==> (#[trigger] out@[j]).name@ != name@,
    {
        if str_eq(out[i].name.as_str(), name.as_str()) {
            assert(entry_names(process_views(out@))[i as int] == name@);
            return true;
        }
    }
    proof {
        if entry_names(process_views(out@)).contains(name@) {
            let w = choose|w: int|
                0 <= w < n && #[trigger] entry_names(process_views(out@))[w] == name@;
            assert(out@[w].name@ == name@);
        }
    }
    false
}

/// Add the record of a listed process, whose name is already lower-cased,
/// unless a record with that name is there: the first line of a name wins.
pub fn record_process(out: &mut Vec<RunningProcess>, name: String, path: Option<String>)
    ensures
        process_views(final(out)@) == if entry_names(process_views(old(out)@)).contains(name@) {
            process_views(old(out)@)
        } else {
            process_views(old(out)@).push((name@, path.deep_view()))
        },
{
    if !name_seen(out, &name) {
        let ghost before = out@;
        out.push(RunningProcess { name, path });
        assert(process_views(out@) =~= process_views(before).push(
            (out@.last().name@, out@.last().path.deep_view()),
        ));
    }
}

/// Parse a multi-line process listing into normalised records: one per name,
/// in the order of first appearance.
pub fn parse_processes(raw: &str) -> (r: Vec<RunningProcess>)
    ensures
        process_views(r@) == listed_processes(lines(raw@)),
{
    let v = chars_of(raw);
    let ls = lines_of(&v);
    let ghost lv = ls.views();
    let mut out: Vec<RunningProcess> = Vec::new();
    let n = ls.len();
    for i in 0..n
        invariant
            n == ls@.len(),
            lv == ls.views(),
            lv == lines(raw@),
            process_views(out@) == listed_processes(lv.take(i as int)),
    {
        assert(lv.take(i + 1).drop_last() =~= lv.take(i as int));
        assert(lv.take(i + 1).last() == ls@[i as int]@);
        match entry_of(&ls[i]) {
            None => {},
            Some((name, path)) => {
                record_process(&mut out, name, path);
            },
        }
    }
    assert(lv.take(n as int) =~= lv);
    out
}

/// Each name occurs at most once among the records of a listing.
pub proof fn law_listed_names_distinct(ls: Seq<Seq<char>>)
    ensures
        ({
            let names = entry_names(listed_processes(ls));
            forall|i: int, j: int|
                0 <= i < names.len() && 0 <= j < names.len() && i != j ==> names[i] != names[j]
        }),
    decreases ls.len(),
{
    if ls.len() > 0 {
        law_listed_names_distinct(ls.drop_last());
        let r = listed_processes(ls.drop_last());
        match process_entry(ls.last()) {
            None => {},
            Some(e) => {
                if !entry_names(r).contains(e.0) {
                    let names = entry_names(r.push(e));
                    assert forall|i: int, j: int|
                        0 <= i < names.len() && 0 <= j < names.len() && i != j implies names[i]
                        != names[j] by {
                        if i < r.len() && j < r.len() {
                            assert(names[i] == entry_names(r)[i]);
                            assert(names[j] == entry_names(r)[j]);
                        } else if i == r.len() {
                            assert(names[j] == entry_names(r)[j]);
                        } else {
                            assert(names[i] == entry_names(r)[i]);
                        }
                    }
                }
            },
        }
    }
}

/// The most seconds a process listing may take.
pub const POLL_CMD_TIMEOUT_SECS: u64 = 10;

/// The PowerShell script that lists processes as `name|path`, or `name` when
/// the executable cannot be read.
pub open spec fn windows_listing_script() -> Seq<char> {
    "\n$ErrorActionPreference = 'SilentlyContinue'\nGet-Process | ForEach-Object {\n    $name = $_.ProcessName\n    $path = $null\n    try { $path = $_.MainModule.FileName } catch {}\n    if ($path) { Write-Output (\"{0}|{1}\" -f $name, $path) }\n    else { Write-Output $name }\n}\n"@
}

/// The shell pipeline that lists processes on macOS as `name|path`: the
/// lower-cased base name of each executable, each line once.
pub open spec fn macos_listing_script() -> Seq<char> {
    "ps -axo comm= 2>/dev/null | awk 'NF{n=split($0,p,\"/\"); base=p[n]; if(base!=\"\"){print tolower(base) \"|\" $0}}' | awk '!seen[$0]++'"@
}

/// The command that lists the running processes, on the platforms where a
/// command does it (Linux reads `/proc` instead).
pub fn process_listing_command(os: OsKind) -> (r: Option<Vec<String>>)
    ensures
        os == OsKind::Windows ==> (r matches Some(c) && string_views(c@) == seq![
            "powershell"@,
            "-NoProfile"@,
            "-NonInteractive"@,
            "-Command"@,
            windows_listing_script(),
        ]),
        os == OsKind::Macos ==> (r matches Some(c) && string_views(c@) == seq![
            "/bin/sh"@,
            "-c"@,
            macos_listing_script(),
        ]),
        os == OsKind::Linux ==> r is None,
{
    match os {
        OsKind::Windows => {
            let r = string_vec(
                &[
                    "powershell",
                    "-NoProfile",
                    "-NonInteractive",
                    "-Command",
                    "\n$ErrorActionPreference = 'SilentlyContinue'\nGet-Process | ForEach-Object {\n    $name = $_.ProcessName\n    $path = $null\n    try { $path = $_.MainModule.FileName } catch {}\n    if ($path) { Write-Output (\"{0}|{1}\" -f $name, $path) }\n    else { Write-Output $name }\n}\n",
                ],
            );
            assert(string_views(r@) =~= seq![
                "powershell"@,
                "-NoProfile"@,
                "-NonInteractive"@,
                "-Command"@,
                windows_listing_script(),
            ]);
            Some(r)
        },
        OsKind::Macos => {
            let r = string_vec(
                &[
                    "/bin/sh",
                    "-c",
                    "ps -axo comm= 2>/dev/null | awk 'NF{n=split($0,p,\"/\"); base=p[n]; if(base!=\"\"){print tolower(base) \"|\" $0}}' | awk '!seen[$0]++'",
                ],
            );
            assert(string_views(r@) =~= seq!["/bin/sh"@, "-c"@, macos_listing_script()]);
            Some(r)
        },
        OsKind::Linux => None,
    }
}

/// The listing text of a listing command's run: on Windows the joined
/// output, on macOS the joined output sanitised; nothing when the command
/// could not run.
pub fn listing_output(os: OsKind, run: &AppResult<RunOutput>) -> (r: String)
    ensures
        match run {
            Ok(o) => r@ == if os == OsKind::Macos {
                sanitized(combined_text(*o))
            } else {
                combined_text(*o)
            },
            Err(_) => r@.len() == 0,
        },
{
    match run {
        Ok(o) => match os {
            OsKind::Macos => sanitize_output(o.combined().as_str()),
            _ => o.combined(),
        },
        Err(_) => String::new(),
    }
}

/// One process directory under `/proc`: its name, its `comm` file (none when
/// it could not be read) and the target of its `exe` link (empty when it
/// could not be read).
#[derive(Debug, Clone)]
pub struct ProcEntry {
    pub name: String,
    pub comm: Option<String>,
    pub exe: String,
}

/// The listing line of a process: `comm`, or `comm|exe` when the executable
/// is known.
pub open spec fn proc_line(comm: Seq<char>, exe: Seq<char>) -> Seq<char> {
    if exe.len() == 0 {
        comm + "\n"@
    } else {
        comm + "|"@ + exe + "\n"@
    }
}

/// The listing of the first `n` entries, with the lower-cased names seen so
/// far: an entry counts when its name is all digits and its trimmed `comm`
/// is non-empty and new (in lower case).
pub open spec fn proc_listing(e: Seq<ProcEntry>, n: int) -> (Seq<Seq<char>>, Seq<char>)
    decreases n,
{
    if n <= 0 || n > e.len() {
        (Seq::empty(), Seq::empty())
    } else {
        let st = proc_listing(e, n - 1);
        let x = e[n - 1];
        match x.comm {
            Some(c) => {
                let t = trim(c@);
                if crate::validation::all_digits(x.name@) && t.len() > 0 && !st.0.contains(
                    lowercase(t),
                ) {
                    (st.0.push(lowercase(t)), st.1 + proc_line(t, x.exe@))
                } else {
                    st
                }
            },
            None => st,
        }
    }
}

fn all_digit_chars(v: &[char]) -> (r: bool)
    ensures
        r == crate::validation::all_digits(v@),
{
    let n = v.len();
    for i in 0..n
        invariant
            n == v@.len(),
            forall|j: int| 0 <= j < i ==> crate::text::is_digit(#[trigger] v@[j]),
    {
        if !('0' <= v[i] && v[i] <= '9') {
            assert(!crate::text::is_digit(v@[i as int]));
            return false;
        }
    }
    true
}

/// Render the process directories of `/proc` as a listing that
/// [`parse_processes`] reads: one line per process, the first of each name.
pub fn render_proc_listing(entries: &[ProcEntry]) -> (r: String)
    ensures
        r@ == proc_listing(entries@, entries@.len() as int).1,
{
    let n = entries.len();
    let mut seen: Vec<String> = Vec::new();
    let mut out = String::new();
    for i in 0..n
        invariant
            n == entries@.len(),
            (string_views(seen@), out@) == proc_listing(entries@, i as int),
    {
        let e = &entries[i];
        match &e.comm {
            Some(c) => {
                let t = string_of(&trimmed(&chars_of(c.as_str())));
                if all_digit_chars(&chars_of(e.name.as_str())) && !t.as_str().is_empty() {
                    let lower = to_lowercase(t.as_str());
                    if !running_contains(&seen, lower.as_str()) {
                        let ghost before = string_views(seen@);
                        let ghost lv = lower@;
                        seen.push(lower);
                        assert(string_views(seen@) =~= before.push(lv));
                        out.append(t.as_str());
                        if !e.exe.as_str().is_empty() {
                            out.append("|");
                            out.append(e.exe.as_str());
                        }
                        out.append("\n");
                    }
                }
            },
            None => {},
        }
    }
    out
}

/// The names of the running processes, as the watcher matches them.
pub fn running_names(procs: &[RunningProcess]) -> (r: Vec<String>)
    ensures
        string_views(r@) == entry_names(process_views(procs@)),
{
    let n = procs.len();
    let mut r: Vec<String> = Vec::new();
    for i in 0..n
        invariant
            n == procs@.len(),
            string_views(r@) == entry_names(process_views(procs@)).take(i as int),
    {
        let ghost before = string_views(r@);
        r.push(procs[i].name.clone());
        assert(string_views(r@) =~= before.push(procs@[i as int].name@));
        assert(string_views(r@) =~= entry_names(process_views(procs@)).take(i + 1));
    }
    assert(entry_names(process_views(procs@)).take(n as int) =~= entry_names(process_views(procs@)));
    r
}

// ---------------------------------------------------------------------------
// Matching and deciding
// ---------------------------------------------------------------------------

/// A rule applies: it is enabled and its matcher is among the running names.
pub open spec fn rule_applies(rule: AutoSwitchRule, running: Seq<String>) -> bool {
    rule.enabled && string_views(running).contains(lowercase(rule.match_name@))
}

/// Position of the first rule that applies, or -1.
pub open spec fn first_applicable(rules: Seq<AutoSwitchRule>, running: Seq<String>) -> int
    decreases rules.len(),
{
    if rules.len() == 0 {
        -1
    } else if rule_applies(rules[0], running) {
        0
    } else {
        let r = first_applicable(rules.drop_first(), running);
        if r < 0 {
            -1
        } else {
            r + 1
        }
    }
}

pub proof fn lemma_first_applicable(rules: Seq<AutoSwitchRule>, running: Seq<String>, i: int)
    requires
        0 <= i <= rules.len(),
        forall|j: int| 0 <= j < i ==> !rule_applies(#[trigger] rules[j], running),
    ensures
        i < rules.len() && rule_applies(rules[i], running) ==> first_applicable(rules, running)
            == i,
        i == rules.len() ==> first_applicable(rules, running) == -1,
    decreases i,
{
    if i > 0 {
        let t = rules.drop_first();
        assert forall|j: int| 0 <= j < i - 1 implies !rule_applies(#[trigger] t[j], running) by {
            assert(t[j] == rules[j + 1]);
        }
        lemma_first_applicable(t, running, i - 1);
        assert(!rule_applies(rules[0], running));
    }
}

/// Whether `name` (already lower-cased) is among the running names.
pub fn running_contains(running: &[String], name: &str) -> (r: bool)
    ensures
        r == string_views(running@).contains(name@),
{
    let n = running.len();
    for i in 0..n
        invariant
            n == running@.len(),
            forall|j: int| 0 <= j < i ==> (#[trigger] running@[j])@ != name@,
    {
        if str_eq(running[i].as_str(), name) {
            assert(string_views(running@)[i as int] == name@);
            return true;
        }
    }
    proof {
        if string_views(running@).contains(name@) {
            let w = choose|w: int| 0 <= w < n && #[trigger] string_views(running@)[w] == name@;
            assert(running@[w]@ == name@);
        }
    }
    false
}

fn first_match_index(rules: &[AutoSwitchRule], running: &[String]) -> (r: Option<usize>)
    ensures
        match r {
            Some(i) => first_applicable(rules@, running@) == i && i < rules@.len(),
            None => first_applicable(rules@, running@) == -1,
        },
{
    let n = rules.len();
    for i in 0..n
        invariant
            n == rules@.len(),
            forall|j: int| 0 <= j < i ==> !rule_applies(#[trigger] rules@[j], running@),
    {
        let rule = &rules[i];
        if rule.enabled {
            let lower = to_lowercase(rule.match_name.as_str());
            if running_contains(running, lower.as_str()) {
                proof {
                    lemma_first_applicable(rules@, running@, i as int);
                }
                return Some(i);
            }
        }
    }
    proof {
        lemma_first_applicable(rules@, running@, n as int);
    }
    None
}

/// Given the names of the running processes (lower-cased, each once) and a
/// list of rules, the first enabled rule whose `match_name` is running.
pub fn matching_rule<'a>(rules: &'a [AutoSwitchRule], running: &[String]) -> (r: Option<
    &'a AutoSwitchRule,
>)
    ensures
        match r {
            Some(rule) => {
                let k = first_applicable(rules@, running@);
                0 <= k < rules@.len() && *rule == rules@[k]
            },
            None => first_applicable(rules@, running@) == -1,
        },
{
    match first_match_index(rules, running) {
        Some(i) => Some(&rules[i]),
        None => None,
    }
}

/// The decision of a poll tick, given the rules, the running names and the
/// profile the watcher last switched to.
pub open spec fn decision_spec(
    rules: Seq<AutoSwitchRule>,
    running: Seq<String>,
    last_switched_to: Option<Seq<char>>,
    d: WatcherDecision,
) -> bool {
    let k = first_applicable(rules, running);
    if k >= 0 {
        if last_switched_to == Some(rules[k].profile_id@) {
            d is Idle
        } else {
            d matches WatcherDecision::Switched(p) && p@ == rules[k].profile_id@
        }
    } else if last_switched_to is Some {
        d == WatcherDecision::Reverted(None)
    } else {
        d is Idle
    }
}

proof fn lemma_first_applicable_applies(rules: Seq<AutoSwitchRule>, running: Seq<String>)
    ensures
        first_applicable(rules, running) >= 0 ==> first_applicable(rules, running) < rules.len()
            && rule_applies(rules[first_applicable(rules, running)], running),
    decreases rules.len(),
{
    if rules.len() > 0 && !rule_applies(rules[0], running) {
        lemma_first_applicable_applies(rules.drop_first(), running);
        let r = first_applicable(rules.drop_first(), running);
        if r >= 0 {
            assert(rules.drop_first()[r] == rules[r + 1]);
        }
    }
}

/// The watcher only ever switches to the profile of an enabled rule whose
/// app is running: disabled rules are skipped.
pub proof fn law_switch_targets_enabled_rule(
    rules: Seq<AutoSwitchRule>,
    running: Seq<String>,
    last: Option<Seq<char>>,
    p: String,
)
    requires
        decision_spec(rules, running, last, WatcherDecision::Switched(p)),
    ensures
        exists|k: int|
            0 <= k < rules.len() && (#[trigger] rules[k]).enabled && rules[k].profile_id@ == p@
                && string_views(running).contains(lowercase(rules[k].match_name@)),
{
    lemma_first_applicable_applies(rules, running);
    let k = first_applicable(rules, running);
    assert(rules[k].enabled);
}

/// Decide what the watcher should do this tick:
///
/// * If an enabled rule matches the running set, switch to its profile,
///   unless the watcher already switched to it (then stay idle).
/// * If no rule matches and the watcher had switched, revert.
/// * Otherwise stay idle.
pub fn decide(
    rules: &[AutoSwitchRule],
    running: &[String],
    current_active: Option<&str>,
    last_switched_to: Option<&str>,
) -> (d: WatcherDecision)
    ensures
        decision_spec(rules@, running@, opt_view(last_switched_to), d),
{
    match matching_rule(rules, running) {
        Some(rule) => {
            let same = match last_switched_to {
                Some(last) => str_eq(last, rule.profile_id.as_str()),
                None => false,
            };
            if same {
                WatcherDecision::Idle
            } else {
                WatcherDecision::Switched(rule.profile_id.clone())
            }
        },
        None => {
            if last_switched_to.is_some() {
                WatcherDecision::Reverted(None)
            } else {
                WatcherDecision::Idle
            }
        },
    }
}

/// Once the watcher has switched to the profile it was told to, the next tick
/// on the same processes is idle; and with no watched app left it reverts
/// exactly when it had switched.
pub proof fn law_switch_settles(
    rules: Seq<AutoSwitchRule>,
    running: Seq<String>,
    last: Option<Seq<char>>,
    d: WatcherDecision,
    p: String,
)
    requires
        decision_spec(rules, running, last, d),
        d == WatcherDecision::Switched(p),
    ensures
        decision_spec(rules, running, Some(p@), WatcherDecision::Idle),
{
}

// ---------------------------------------------------------------------------
// Executable names
// ---------------------------------------------------------------------------

/// A path separator: `/` or `\`.
pub open spec fn is_sep(c: char) -> bool {
    c == '/' || c == '\\'
}

/// The pieces of `s` between path separators.
pub open spec fn path_pieces(s: Seq<char>) -> Seq<Seq<char>>
    decreases s.len(),
{
    if s.len() == 0 {
        seq![Seq::<char>::empty()]
    } else {
        let r = path_pieces(s.drop_last());
        if is_sep(s.last()) {
            r.push(Seq::<char>::empty())
        } else {
            r.update(r.len() - 1, r.last().push(s.last()))
        }
    }
}

/// The last path component of `pieces` up to position `n`, skipping empty
/// and `.` components; none when it is `..` or there is none.
pub open spec fn last_component(pieces: Seq<Seq<char>>, n: int) -> Option<Seq<char>>
    decreases n,
{
    if n <= 0 || n > pieces.len() {
        None
    } else {
        let p = pieces[n - 1];
        if p.len() == 0 || p == seq!['.'] {
            last_component(pieces, n - 1)
        } else if p == seq!['.', '.'] {
            None
        } else {
            Some(p)
        }
    }
}

/// The file name of a path written with `/` or `\` separators.
pub open spec fn file_name(s: Seq<char>) -> Option<Seq<char>> {
    let p = path_pieces(s);
    last_component(p, p.len() as int)
}

/// What [`normalize_match_name`] makes of `input`.
pub open spec fn match_name_of(input: Seq<char>) -> Seq<char> {
    let t = strip(trim(input), '"');
    match file_name(t) {
        Some(f) => lowercase(f),
        None => lowercase(t),
    }
}

/// The text that [`normalize_match_name`] lower-cases: the file name of the
/// trimmed, unquoted input, or that text itself when it names no file.
pub open spec fn match_name_part(input: Seq<char>) -> Seq<char> {
    let t = strip(trim(input), '"');
    match file_name(t) {
        Some(f) => f,
        None => t,
    }
}

/// A name in matcher form but for case: a single path component, not `.` or
/// `..`, with no surrounding whitespace and no surrounding quote.
pub open spec fn is_bare_name(f: Seq<char>) -> bool {
    &&& f.len() > 0
    &&& trim(f) == f
    &&& f[0] != '"'
    &&& f.last() != '"'
    &&& forall|i: int| 0 <= i < f.len() ==> !is_sep(#[trigger] f[i])
    &&& f != seq!['.']
    &&& f != seq!['.', '.']
}

proof fn lemma_path_pieces_single(s: Seq<char>)
    requires
        forall|i: int| 0 <= i < s.len() ==> !is_sep(#[trigger] s[i]),
    ensures
        path_pieces(s) == seq![s],
    decreases s.len(),
{
    if s.len() > 0 {
        assert forall|i: int| 0 <= i < s.drop_last().len() implies !is_sep(
            #[trigger] s.drop_last()[i],
        ) by {
            assert(s.drop_last()[i] == s[i]);
        }
        lemma_path_pieces_single(s.drop_last());
        assert(!is_sep(s[s.len() - 1]));
        assert(s.drop_last().push(s.last()) =~= s);
        assert(path_pieces(s) =~= seq![s]);
    } else {
        assert(s =~= Seq::<char>::empty());
    }
}

proof fn lemma_path_pieces_sep_free(s: Seq<char>)
    ensures
        forall|j: int, k: int|
            0 <= j < path_pieces(s).len() && 0 <= k < path_pieces(s)[j].len() ==> !is_sep(
                #[trigger] path_pieces(s)[j][k],
            ),
        path_pieces(s).len() > 0,
    decreases s.len(),
{
    if s.len() > 0 {
        lemma_path_pieces_sep_free(s.drop_last());
        let r = path_pieces(s.drop_last());
        if !is_sep(s.last()) {
            let q = r.last().push(s.last());
            assert forall|j: int, k: int|
                0 <= j < path_pieces(s).len() && 0 <= k < path_pieces(s)[j].len() implies !is_sep(
                #[trigger] path_pieces(s)[j][k],
            ) by {
                if j == r.len() - 1 {
                    assert(path_pieces(s)[j] == q);
                    if k < q.len() - 1 {
                        assert(q[k] == r[j][k]);
                    }
                } else {
                    assert(path_pieces(s)[j] == r[j]);
                }
            }
        } else {
            assert forall|j: int, k: int|
                0 <= j < path_pieces(s).len() && 0 <= k < path_pieces(s)[j].len() implies !is_sep(
                #[trigger] path_pieces(s)[j][k],
            ) by {
                if j < r.len() {
                    assert(path_pieces(s)[j] == r[j]);
                }
            }
        }
    }
}

proof fn lemma_last_component_is_piece(pieces: Seq<Seq<char>>, n: int)
    requires
        last_component(pieces, n) is Some,
    ensures
        exists|j: int|
            0 <= j < n && j < pieces.len() && #[trigger] pieces[j] == last_component(
                pieces,
                n,
            )->0,
        last_component(pieces, n)->0.len() > 0,
        last_component(pieces, n)->0 != seq!['.'],
        last_component(pieces, n)->0 != seq!['.', '.'],
    decreases n,
{
    let p = pieces[n - 1];
    if p.len() == 0 || p == seq!['.'] {
        lemma_last_component_is_piece(pieces, n - 1);
    } else {
        assert(pieces[n - 1] == last_component(pieces, n)->0);
    }
}

/// Normalising lower-cases a single file name: whenever the trimmed,
/// unquoted input names a file, the text that is lower-cased is one path
/// component, neither `.` nor `..`, with no separator in it.
pub proof fn law_match_name_is_file_name(input: Seq<char>)
    ensures
        match_name_of(input) == lowercase(match_name_part(input)),
        file_name(strip(trim(input), '"')) is Some ==> ({
            let f = match_name_part(input);
            &&& f.len() > 0
            &&& f != seq!['.']
            &&& f != seq!['.', '.']
            &&& forall|i: int| 0 <= i < f.len() ==> !is_sep(#[trigger] f[i])
        }),
{
    let t = strip(trim(input), '"');
    let p = path_pieces(t);
    if file_name(t) is Some {
        lemma_last_component_is_piece(p, p.len() as int);
        lemma_path_pieces_sep_free(t);
        let f = match_name_part(input);
        let j = choose|j: int| 0 <= j < p.len() && #[trigger] p[j] == f;
        assert forall|i: int| 0 <= i < f.len() implies !is_sep(#[trigger] f[i]) by {
            assert(p[j][i] == f[i]);
        }
    }
}

/// A name already in matcher form but for case is only lower-cased by
/// normalising: nothing of it is trimmed, unquoted or cut away as a path.
pub proof fn law_bare_name_only_lowercased(f: Seq<char>)
    requires
        is_bare_name(f),
    ensures
        match_name_part(f) == f,
        match_name_of(f) == lowercase(f),
{
    assert(strip_start(f, '"') == f);
    assert(strip_end(f, '"') == f);
    assert(strip(trim(f), '"') == f);
    lemma_path_pieces_single(f);
    assert(path_pieces(f)[0] == f);
    assert(last_component(path_pieces(f), 1) == Some(f));
}

fn pieces_of_path(v: &[char]) -> (r: Vec<Vec<char>>)
    ensures
        r.views() == path_pieces(v@),
{
    let n = v.len();
    let mut pieces: Vec<Vec<char>> = Vec::new();
    let mut cur: Vec<char> = Vec::new();
    for i in 0..n
        invariant
            n == v@.len(),
            pieces.views().push(cur@) == path_pieces(v@.take(i as int)),
    {
        assert(v@.take(i + 1).drop_last() =~= v@.take(i as int));
        if v[i] == '/' || v[i] == '\\' {
            pieces.push(cur);
            cur = Vec::new();
        } else {
            cur.push(v[i]);
        }
        assert(pieces.views().push(cur@) =~= path_pieces(v@.take(i + 1)));
    }
    assert(v@.take(n as int) =~= v@);
    pieces.push(cur);
    pieces
}

fn last_component_of(pieces: &Vec<Vec<char>>) -> (r: Option<usize>)
    ensures
        match r {
            Some(k) => k < pieces@.len() && last_component(pieces.views(), pieces@.len() as int)
                == Some(pieces@[k as int]@),
            None => last_component(pieces.views(), pieces@.len() as int) is None,
        },
{
    let mut n = pieces.len();
    while n > 0
        invariant
            n <= pieces@.len(),
            last_component(pieces.views(), pieces@.len() as int) == last_component(
                pieces.views(),
                n as int,
            ),
        decreases n,
    {
        let p = &pieces[n - 1];
        assert(pieces.views()[n - 1] == p@);
        if p.len() == 0 || (p.len() == 1 && p[0] == '.') {
            assert(p@.len() == 1 && p@[0] == '.' ==> p@ == seq!['.']);
            n -= 1;
        } else if p.len() == 2 && p[0] == '.' && p[1] == '.' {
            assert(p@ =~= seq!['.', '.']);
            return None;
        } else {
            assert(p@ != seq!['.']);
            assert(p@ != seq!['.', '.']);
            return Some(n - 1);
        }
    }
    None
}

/// Lower-case a user-supplied executable name (or path) into the matcher
/// form: just the file name.
pub fn normalize_match_name(input: &str) -> (r: String)
    ensures
        r@ == match_name_of(input@),
{
    let v = chars_of(input);
    let t = stripped(&trimmed(&v), '"');
    let pieces = pieces_of_path(&t);
    match last_component_of(&pieces) {
        Some(k) => {
            let f = string_of(&pieces[k]);
            to_lowercase(f.as_str())
        },
        None => {
            let s = string_of(&t);
            to_lowercase(s.as_str())
        },
    }
}

/// The watcher follows the first running rule: when rule `k` is the first
/// enabled rule whose matcher is among the running names, the decision is to
/// switch to its profile unless the watcher last switched to that very
/// profile, in which case it stays idle. A different profile last switched to
/// never keeps it idle.
pub proof fn law_first_running_rule_decides(
    rules: Seq<AutoSwitchRule>,
    running: Seq<String>,
    last: Option<Seq<char>>,
    d: WatcherDecision,
    k: int,
)
    requires
        decision_spec(rules, running, last, d),
        0 <= k < rules.len(),
        rules[k].enabled,
        string_views(running).contains(lowercase(rules[k].match_name@)),
        forall|j: int|
            0 <= j < k ==> !((#[trigger] rules[j]).enabled && string_views(running).contains(
                lowercase(rules[j].match_name@),
            )),
    ensures
        last != Some(rules[k].profile_id@) ==> (d matches WatcherDecision::Switched(p) && p@
            == rules[k].profile_id@),
        last == Some(rules[k].profile_id@) ==> d is Idle,
{
    assert forall|j: int| 0 <= j < k implies !rule_applies(#[trigger] rules[j], running) by {}
    lemma_first_applicable(rules, running, k);
}

} // verus!
