//! Scheduled jobs on a Mac, from launchd and cron: reading them into one
//! [`Job`] shape with their schedules in plain English, deciding what each
//! job's state means and what the user may do to it, and planning the
//! `launchctl` steps that enable, disable or delete a launchd job.
//!
//! Reading files and running commands is left to the caller; every function
//! here takes and returns plain values.

pub mod actions;
pub mod cron;
pub mod launchd;
pub mod laws;
pub mod paths;
pub mod plist;
pub mod policy;
pub mod table;
pub mod text;
pub mod types;

pub use actions::{
    delete_plan, delete_precheck, direct_step_error, guard_protected, privileged_applescript, privileged_failure,
    script_for, set_job_enabled, shell_quote, step, trash_entry_name, trash_fallback_name, uid, Operation,
    Removal, Step, StepOutcome,
};
pub use cron::{decode_cron, decode_cron_keyword, list_cron_jobs, parse_cron_text, CronSource};
pub use launchd::{
    decode_calendar, decode_launchd_schedule, human_duration, launchd_domains, list_launchd_jobs, month_name,
    job_of_plist, parse_disabled_text, parse_launchctl_list, parse_launchd_plist, plural, DomainScan, PlistFile,
    Runtime,
};
pub use paths::{is_plist_path, short_source};
pub use plist::{Dictionary, PlistValue};
pub use policy::{
    cron_permissions, launchd_permissions, refusal, LaunchdState, Permission, Permissions, Refusal, Status,
};
pub use table::LabelMap;
pub use types::{weekday_name, Action, Domain, Job, Scope};
