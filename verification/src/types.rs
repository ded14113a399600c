//! The vocabulary of the crate: actions, scopes, jobs and the directories
//! launchd reads jobs from, with no behaviour beyond the rules they carry.

use vstd::prelude::*;

use crate::policy::{Permissions, Status};
use crate::text::{chars_of, extend_str, string_from, string_of};

verus! {

/// A change the user can ask for on a job.
///
/// Named separately from the commands that perform it because the authority a
/// change needs depends on which one it is: see [`Scope::needs_admin`].
#[derive(Clone, Copy, PartialEq, Eq, Debug, Structural)]
pub enum Action {
    /// Enable or disable: writes launchd's disabled database.
    Toggle,
    /// Unload and move the job's file to the Trash.
    Delete,
}

/// Which part of the machine a job belongs to, and therefore how much
/// authority is needed to change it.
#[derive(Clone, Copy, PartialEq, Eq, Debug, Structural)]
pub enum Scope {
    /// `~/Library/LaunchAgents`: the user's own jobs.
    User,
    /// `/Library/LaunchAgents`: installed for every user; root-owned.
    Global,
    /// `/Library/LaunchDaemons`: loaded into launchd's `system` domain.
    System,
    /// An Apple-owned job, wherever it was found. Protected from every change.
    Apple,
}

/// The lowercase spelling of a scope, which is how the frontend names it.
pub open spec fn scope_name(scope: Scope) -> Seq<char> {
    match scope {
        Scope::User => "user"@,
        Scope::Global => "global"@,
        Scope::System => "system"@,
        Scope::Apple => "apple"@,
    }
}

/// The launchd domain target a job of `scope` is addressed in.
pub open spec fn launchd_domain_of(scope: Scope, uid: Seq<char>) -> Seq<char> {
    if scope == Scope::System {
        "system"@
    } else {
        "gui/"@ + uid
    }
}

/// Whether `action` on a job of `scope` needs administrator authentication.
pub open spec fn needs_admin_for(scope: Scope, action: Action) -> bool {
    match action {
        Action::Toggle => scope == Scope::System,
        Action::Delete => scope != Scope::User,
    }
}

impl Scope {
    /// The launchd domain target this job is addressed in: `system` for system
    /// daemons, the user's `gui/<uid>` for everything else.
    pub fn launchd_domain(&self, uid: &str) -> (r: String)
        ensures
            r@ == launchd_domain_of(*self, uid@),
    {
        match self {
            Scope::System => string_from("system"),
            _ => {
                let mut v = chars_of("gui/");
                extend_str(&mut v, uid);
                string_of(&v)
            },
        }
    }

    /// Whether this action on this scope needs administrator authentication.
    ///
    /// Toggling writes launchd's disabled database, which is per-user except
    /// in the `system` domain; deleting moves the job's file, and every
    /// directory outside `~/Library` is root-owned.
    pub fn needs_admin(&self, action: Action) -> (r: bool)
        ensures
            r == needs_admin_for(*self, action),
    {
        match action {
            Action::Toggle => matches!(self, Scope::System),
            Action::Delete => !matches!(self, Scope::User),
        }
    }
}

/// A single scheduled job, from either launchd or cron.
#[derive(Clone, Debug)]
pub struct Job {
    /// Unique identifier: the plist `Label`, or `<file>:<line>` for cron.
    pub label: String,
    /// Which subsystem the job came from: `"launchd"` or `"cron"`.
    pub kind: String,
    /// Ownership/trust bucket.
    pub scope: Scope,
    /// The plist or crontab file this job was read from.
    pub source_path: String,
    /// Human label for that source, e.g. `"User Agents"` or `"Cron"`.
    pub source_group: String,
    /// The executable; for cron, the whole command line.
    pub program: String,
    /// Remaining command-line arguments (always empty for cron).
    pub args: Vec<String>,
    /// Schedule rendered as plain English.
    pub schedule_human: String,
    /// `StandardOutPath` from the plist, if set.
    pub stdout_path: Option<String>,
    /// `StandardErrorPath` from the plist, if set.
    pub stderr_path: Option<String>,
    /// What the job is doing.
    pub status: Status,
    /// What the user may do to the job, one answer per action.
    pub permissions: Permissions,
}

/// A [`Job`] with every string taken as its characters.
pub struct JobView {
    pub label: Seq<char>,
    pub kind: Seq<char>,
    pub scope: Scope,
    pub source_path: Seq<char>,
    pub source_group: Seq<char>,
    pub program: Seq<char>,
    pub args: Seq<Seq<char>>,
    pub schedule_human: Seq<char>,
    pub stdout_path: Option<Seq<char>>,
    pub stderr_path: Option<Seq<char>>,
    pub status: Status,
    pub permissions: Permissions,
}

/// The characters of an optional string.
pub open spec fn opt_chars(s: Option<String>) -> Option<Seq<char>> {
    match s {
        Some(t) => Some(t@),
        None => None,
    }
}

/// The characters of each string in `v`.
pub open spec fn strings_chars(v: Seq<String>) -> Seq<Seq<char>> {
    v.map_values(|s: String| s@)
}

impl View for Job {
    type V = JobView;

    open spec fn view(&self) -> JobView {
        JobView {
            label: self.label@,
            kind: self.kind@,
            scope: self.scope,
            source_path: self.source_path@,
            source_group: self.source_group@,
            program: self.program@,
            args: strings_chars(self.args@),
            schedule_human: self.schedule_human@,
            stdout_path: opt_chars(self.stdout_path),
            stderr_path: opt_chars(self.stderr_path),
            status: self.status,
            permissions: self.permissions,
        }
    }
}

/// The view of each job in `s`.
pub open spec fn jobs_view(s: Seq<Job>) -> Seq<JobView> {
    s.map_values(|j: Job| j@)
}

/// One directory that launchd loads job definitions from.
#[derive(Clone, Copy, Debug)]
pub struct Domain {
    /// Directory path, relative to the home directory when `home` is set.
    pub dir: &'static str,
    /// Default scope for jobs found here (Apple labels override it).
    pub scope: Scope,
    /// Human-readable name for the UI's source column.
    pub group: &'static str,
    /// Whether `dir` must be joined onto the user's home directory.
    pub home: bool,
    /// Whether jobs here live in launchd's `system` domain rather than
    /// `gui/<uid>`, which decides the disabled database to consult.
    pub daemon: bool,
}

/// The English name of weekday `i` (0 is Sunday), for `i` in `0..7`.
pub open spec fn weekday_of(i: int) -> Seq<char> {
    if i == 0 {
        "Sunday"@
    } else if i == 1 {
        "Monday"@
    } else if i == 2 {
        "Tuesday"@
    } else if i == 3 {
        "Wednesday"@
    } else if i == 4 {
        "Thursday"@
    } else if i == 5 {
        "Friday"@
    } else {
        "Saturday"@
    }
}

/// The weekday launchd and cron mean by `w`: counted from Sunday, modulo 7,
/// so 0 and 7 are both Sunday and any value names some day.
pub open spec fn weekday_text(w: int) -> Seq<char> {
    weekday_of(w % 7)
}

/// Name of a weekday from its number, e.g. `1` -> `"Monday"`.
pub fn weekday_name(w: i64) -> (r: String)
    ensures
        r@ == weekday_text(w as int),
{
    let idx: i64 = if w >= 0 {
        w % 7
    } else {
        let p = 0 - (w as i128);
        let q = (p % 7) as i64;
        assert((w as int) % 7 == (if q == 0 { 0 } else { 7 - q })) by (nonlinear_arith)
            requires
                p == -(w as int),
                q == p % 7,
                p > 0,
        ;
        if q == 0 { 0 } else { 7 - q }
    };
    let name = if idx == 0 {
        "Sunday"
    } else if idx == 1 {
        "Monday"
    } else if idx == 2 {
        "Tuesday"
    } else if idx == 3 {
        "Wednesday"
    } else if idx == 4 {
        "Thursday"
    } else if idx == 5 {
        "Friday"
    } else {
        "Saturday"
    };
    string_from(name)
}

} // verus!
