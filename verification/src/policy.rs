//! What a job's state means and what may be done to it, decided once here.

use vstd::prelude::*;

use crate::text::chars_of;
use crate::types::{needs_admin_for, Action, Scope};

verus! {

/// What a job is doing right now.
#[derive(Clone, Copy, PartialEq, Eq, Debug, Structural)]
pub enum Status {
    /// Switched off in launchd's disabled database. Beats every other state.
    Disabled,
    /// Currently running.
    Running { pid: i64 },
    /// Loaded and waiting for its trigger.
    Idle { last_exit: Option<i64> },
    /// Known to launchd's configuration but not loaded into the session.
    NotLoaded { last_exit: Option<i64> },
    /// A live crontab line: it exists and will fire.
    Scheduled,
}

/// The raw launchd facts a [`Status`] is derived from.
#[derive(Clone, Copy, Debug)]
pub struct LaunchdState {
    /// The `Disabled` key written inside the plist file.
    pub disabled_key: bool,
    /// launchd's disabled database, if it has an entry for this label.
    pub disabled_override: Option<bool>,
    /// Whether the label appears in `launchctl list`.
    pub loaded: bool,
    /// Process id, if it is running.
    pub pid: Option<i64>,
    /// Exit status of the most recent run, if launchd reported one.
    pub last_exit: Option<i64>,
}

/// Whether the job is switched off: the disabled database when it has an
/// entry, the plist's own key otherwise.
pub open spec fn is_disabled(st: LaunchdState) -> bool {
    match st.disabled_override {
        Some(d) => d,
        None => st.disabled_key,
    }
}

/// The one state the UI shows for these facts.
pub open spec fn status_of(st: LaunchdState) -> Status {
    if is_disabled(st) {
        Status::Disabled
    } else {
        match st.pid {
            Some(pid) => Status::Running { pid },
            None => if st.loaded {
                Status::Idle { last_exit: st.last_exit }
            } else {
                Status::NotLoaded { last_exit: st.last_exit }
            },
        }
    }
}

impl LaunchdState {
    /// Collapse the raw facts into the one state the UI should show.
    ///
    /// Disabled wins over everything, because a job disabled while running
    /// keeps its pid until it exits.
    pub fn status(&self) -> (r: Status)
        ensures
            r == status_of(*self),
    {
        let disabled = match self.disabled_override {
            Some(d) => d,
            None => self.disabled_key,
        };
        if disabled {
            return Status::Disabled;
        }
        match (self.pid, self.loaded) {
            (Some(pid), _) => Status::Running { pid },
            (None, true) => Status::Idle { last_exit: self.last_exit },
            (None, false) => Status::NotLoaded { last_exit: self.last_exit },
        }
    }
}

/// Why a change was refused outright.
#[derive(Clone, Copy, PartialEq, Eq, Debug, Structural)]
pub enum Refusal {
    /// An Apple-owned job.
    Apple,
    /// On the sealed, read-only `/System` volume.
    SystemVolume,
    /// cron: this app reads crontabs but never writes them.
    Unsupported,
}

/// The message a refused command returns to the user.
pub open spec fn refusal_message(r: Refusal) -> Seq<char> {
    match r {
        Refusal::Apple => "Apple system job — refused. Changing com.apple.* jobs can destabilise macOS."@,
        Refusal::SystemVolume => "Job lives in /System — refused. That volume is sealed and read-only."@,
        Refusal::Unsupported => "cron jobs cannot be changed from this app."@,
    }
}

impl Refusal {
    /// The message a refused command returns to the user.
    pub fn message(&self) -> (r: &'static str)
        ensures
            r@ == refusal_message(*self),
    {
        match self {
            Refusal::Apple => "Apple system job — refused. Changing com.apple.* jobs can destabilise macOS.",
            Refusal::SystemVolume => "Job lives in /System — refused. That volume is sealed and read-only.",
            Refusal::Unsupported => "cron jobs cannot be changed from this app.",
        }
    }
}

/// Whether one action is available on one job, and at what cost.
#[derive(Clone, Copy, PartialEq, Eq, Debug, Structural)]
pub enum Permission {
    /// Goes ahead with no prompt.
    Editable,
    /// Shows the native administrator authentication dialog first.
    NeedsAdmin,
    /// Will not be attempted.
    Refused { reason: Refusal },
}

/// What the user may do to a job: one entry per action the UI offers.
#[derive(Clone, Copy, PartialEq, Eq, Debug, Structural)]
pub struct Permissions {
    pub toggle: Permission,
    pub delete: Permission,
}

/// The label prefix of Apple's own jobs.
pub open spec fn apple_prefix() -> Seq<char> {
    "com.apple."@
}

/// The sealed system volume.
pub open spec fn system_volume_prefix() -> Seq<char> {
    "/System/"@
}

/// Whether a job is protected from every change, and why: Apple first, then
/// the sealed volume.
pub open spec fn refusal_of(label: Seq<char>, path: Seq<char>, scope: Scope) -> Option<Refusal> {
    if apple_prefix().is_prefix_of(label) || scope == Scope::Apple {
        Some(Refusal::Apple)
    } else if system_volume_prefix().is_prefix_of(path) {
        Some(Refusal::SystemVolume)
    } else {
        None
    }
}

/// Whether a launchd job may have `action` done to it.
pub open spec fn permission_of(label: Seq<char>, path: Seq<char>, scope: Scope, action: Action) -> Permission {
    match refusal_of(label, path, scope) {
        Some(reason) => Permission::Refused { reason },
        None => if needs_admin_for(scope, action) {
            Permission::NeedsAdmin
        } else {
            Permission::Editable
        },
    }
}

/// Whether this job is protected from every change, and why.
///
/// Apple is checked before the volume so an Apple job under `/System` reports
/// the more specific reason.
pub fn refusal(label: &str, path: &str, scope: Scope) -> (r: Option<Refusal>)
    ensures
        r == refusal_of(label@, path@, scope),
{
    let l = chars_of(label);
    let p = chars_of(path);
    let apple = chars_of("com.apple.");
    let system = chars_of("/System/");
    if crate::text::starts_with(&l, &apple) || scope == Scope::Apple {
        Some(Refusal::Apple)
    } else if crate::text::starts_with(&p, &system) {
        Some(Refusal::SystemVolume)
    } else {
        None
    }
}

/// What the user may do to a launchd job.
pub fn launchd_permissions(label: &str, path: &str, scope: Scope) -> (r: Permissions)
    ensures
        r.toggle == permission_of(label@, path@, scope, Action::Toggle),
        r.delete == permission_of(label@, path@, scope, Action::Delete),
{
    let why = refusal(label, path, scope);
    let toggle = match why {
        Some(reason) => Permission::Refused { reason },
        None => if scope.needs_admin(Action::Toggle) {
            Permission::NeedsAdmin
        } else {
            Permission::Editable
        },
    };
    let delete = match why {
        Some(reason) => Permission::Refused { reason },
        None => if scope.needs_admin(Action::Delete) {
            Permission::NeedsAdmin
        } else {
            Permission::Editable
        },
    };
    Permissions { toggle, delete }
}

/// What the user may do to a cron line: nothing, for now.
pub fn cron_permissions() -> (r: Permissions)
    ensures
        r.toggle == (Permission::Refused { reason: Refusal::Unsupported }),
        r.delete == (Permission::Refused { reason: Refusal::Unsupported }),
{
    let refused = Permission::Refused { reason: Refusal::Unsupported };
    Permissions { toggle: refused, delete: refused }
}

} // verus!
