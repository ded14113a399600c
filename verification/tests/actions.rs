use jobs::actions::{
    delete_plan, delete_precheck, direct_step_error, guard_protected, privileged_applescript, privileged_failure,
    script_for, set_job_enabled, shell_quote, step, trash_entry_name, trash_fallback_name, uid, StepOutcome,
};

#[test]
fn actions_script_quotes_targets_and_swallows_best_effort_steps() {
    let steps = vec![
        step(&["bootout", "gui/501/com.example.job"], false),
        step(&["disable", "gui/501/com.example.job"], true),
    ];
    let expected = "{ /bin/launchctl 'bootout' 'gui/501/com.example.job' ; } || true && /bin/launchctl 'disable' 'gui/501/com.example.job'";
    assert_eq!(script_for(&steps), expected);
}

#[test]
fn actions_guard_refuses_apple_and_system_volume() {
    assert!(guard_protected("com.apple.thing", "/Library/LaunchAgents/x.plist", "user").is_err());
    assert!(guard_protected("com.me.thing", "/System/Library/LaunchAgents/x.plist", "user").is_err());
    assert!(guard_protected("com.me.thing", "/Library/LaunchAgents/x.plist", "user").is_ok());
}

#[test]
fn guard_messages_name_the_reason() {
    assert_eq!(
        guard_protected("com.vendor.x", "/Library/LaunchAgents/x.plist", "apple").unwrap_err(),
        "Apple system job — refused. Changing com.apple.* jobs can destabilise macOS."
    );
    assert_eq!(
        guard_protected("com.me.thing", "/System/Library/LaunchAgents/x.plist", "user").unwrap_err(),
        "Job lives in /System — refused. That volume is sealed and read-only."
    );
    // Apple is reported before the sealed volume.
    assert_eq!(
        guard_protected("com.apple.x", "/System/Library/LaunchAgents/x.plist", "user").unwrap_err(),
        "Apple system job — refused. Changing com.apple.* jobs can destabilise macOS."
    );
}

#[test]
fn shell_quote_escapes_single_quotes() {
    assert_eq!(shell_quote("plain"), "'plain'");
    assert_eq!(shell_quote("it's"), "'it'\\''s'");
    assert_eq!(shell_quote(""), "''");
    assert_eq!(shell_quote("$HOME `x`"), "'$HOME `x`'");
}

#[test]
fn enabling_a_user_agent_runs_directly() {
    let op = set_job_enabled("com.me.job", "/Users/me/Library/LaunchAgents/j.plist", "user", true, "501").unwrap();
    assert!(!op.privileged);
    assert_eq!(op.done, "com.me.job enabled");
    assert_eq!(op.steps.len(), 2);
    assert_eq!(op.steps[0].args, vec!["enable", "gui/501/com.me.job"]);
    assert!(op.steps[0].critical);
    assert_eq!(op.steps[1].args, vec!["bootstrap", "gui/501", "/Users/me/Library/LaunchAgents/j.plist"]);
    assert!(!op.steps[1].critical);
}

#[test]
fn disabling_a_system_daemon_needs_admin() {
    let op = set_job_enabled("com.me.d", "/Library/LaunchDaemons/d.plist", "system", false, "501").unwrap();
    assert!(op.privileged);
    assert_eq!(op.done, "com.me.d disabled");
    assert_eq!(op.steps[0].args, vec!["bootout", "system/com.me.d"]);
    assert!(!op.steps[0].critical);
    assert_eq!(op.steps[1].args, vec!["disable", "system/com.me.d"]);
    assert!(op.steps[1].critical);
    assert_eq!(
        script_for(&op.steps),
        "{ /bin/launchctl 'bootout' 'system/com.me.d' ; } || true && /bin/launchctl 'disable' 'system/com.me.d'"
    );
}

#[test]
fn enabling_a_system_daemon_keeps_the_enable_decisive() {
    let op = set_job_enabled("com.me.d", "/Library/LaunchDaemons/d.plist", "system", true, "501").unwrap();
    assert!(op.privileged);
    // The best-effort bootstrap follows the critical enable, so it is grouped
    // with its `|| true`: a failing enable still fails the whole script.
    assert_eq!(
        script_for(&op.steps),
        "/bin/launchctl 'enable' 'system/com.me.d' && { { /bin/launchctl 'bootstrap' 'system' '/Library/LaunchDaemons/d.plist' ; } || true ; }"
    );
}

#[test]
fn script_of_best_effort_steps_only_and_of_none() {
    let steps = vec![step(&["bootout", "gui/501/x"], false), step(&["enable", "gui/501/x"], false)];
    assert_eq!(
        script_for(&steps),
        "{ /bin/launchctl 'bootout' 'gui/501/x' ; } || true && { { /bin/launchctl 'enable' 'gui/501/x' ; } || true ; }"
    );
    assert_eq!(script_for(&[]), "");
}

#[test]
fn toggling_a_global_agent_uses_the_user_domain() {
    let op = set_job_enabled("com.me.g", "/Library/LaunchAgents/g.plist", "global", false, "502").unwrap();
    assert!(!op.privileged);
    assert_eq!(op.steps[1].args, vec!["disable", "gui/502/com.me.g"]);
}

#[test]
fn toggling_a_protected_job_is_refused() {
    let err = set_job_enabled("com.apple.x", "/Library/LaunchAgents/x.plist", "user", true, "501").unwrap_err();
    assert_eq!(err, "Apple system job — refused. Changing com.apple.* jobs can destabilise macOS.");
}

#[test]
fn delete_checks_protection_before_the_file() {
    assert_eq!(
        delete_precheck("com.apple.x", "/nowhere.plist", "user", false).unwrap_err(),
        "Apple system job — refused. Changing com.apple.* jobs can destabilise macOS."
    );
    assert_eq!(
        delete_precheck("com.me.x", "/nowhere.plist", "user", false).unwrap_err(),
        "No such file: /nowhere.plist"
    );
    assert!(delete_precheck("com.me.x", "/here.plist", "user", true).is_ok());
}

#[test]
fn deleting_a_global_agent_needs_admin_and_moves_the_file() {
    let plan = delete_plan("com.me.g", "/Library/LaunchAgents/g.plist", "global", "501", "/Users/me/.Trash/g.plist");
    assert!(plan.privileged);
    assert_eq!(plan.steps[0].args, vec!["bootout", "gui/501/com.me.g"]);
    assert_eq!(plan.steps[1].args, vec!["enable", "gui/501/com.me.g"]);
    assert!(!plan.steps[0].critical && !plan.steps[1].critical);
    assert_eq!(plan.move_command, "/bin/mv '/Library/LaunchAgents/g.plist' '/Users/me/.Trash/g.plist'");
    assert_eq!(plan.done, "com.me.g moved to Trash");

    let own = delete_plan("com.me.u", "/Users/me/Library/LaunchAgents/u.plist", "user", "501", "/Users/me/.Trash/u.plist");
    assert!(!own.privileged);
}

#[test]
fn trash_names() {
    assert_eq!(trash_entry_name("/Library/LaunchAgents/g.plist").unwrap(), "g.plist");
    assert_eq!(trash_entry_name("/").unwrap_err(), "Bad file name");
    assert_eq!(trash_fallback_name("/Library/LaunchAgents/g.plist", 1700000000), "g-1700000000.plist");
    assert_eq!(trash_fallback_name("/", 5), "job-5.plist");
}

#[test]
fn direct_failures_stop_only_at_critical_steps() {
    let best_effort = step(&["bootout", "gui/501/x"], false);
    let critical = step(&["disable", "gui/501/x"], true);
    let failed = StepOutcome::Failed { stderr: "  Boot-out failed: 3: No such process\n".to_string() };
    assert_eq!(direct_step_error(&best_effort, &failed), None);
    assert_eq!(direct_step_error(&critical, &failed).unwrap(), "Boot-out failed: 3: No such process");
    let silent = StepOutcome::Failed { stderr: " \n".to_string() };
    assert_eq!(direct_step_error(&critical, &silent).unwrap(), "launchctl disable gui/501/x failed");
    let not_started = StepOutcome::NotStarted { error: "No such file or directory (os error 2)".to_string() };
    assert_eq!(direct_step_error(&critical, &not_started).unwrap(), "No such file or directory (os error 2)");
    assert_eq!(direct_step_error(&best_effort, &not_started), None);
    assert_eq!(direct_step_error(&critical, &StepOutcome::Succeeded), None);
}

#[test]
fn privileged_script_and_failures() {
    assert_eq!(
        privileged_applescript("/bin/launchctl 'a\"b' \\x"),
        "do shell script \"/bin/launchctl 'a\\\"b' \\\\x\" with administrator privileges"
    );
    assert_eq!(privileged_failure("execution error: User canceled. (-128)\n"), "Cancelled");
    assert_eq!(privileged_failure("error -128"), "Cancelled");
    assert_eq!(privileged_failure("  "), "Privileged command failed");
    assert_eq!(privileged_failure(" some error \n"), "some error");
}

#[test]
fn uid_falls_back_to_the_first_account() {
    assert_eq!(uid(Some("502\n")), "502");
    assert_eq!(uid(None), "501");
}

/// Runs `steps` the way a direct run does, with `outcomes[k]` as the result
/// of step `k`: the first error stops the run. Returns the result and how
/// many steps were started.
fn run_with(steps: &[jobs::Step], outcomes: Vec<StepOutcome>) -> (Result<(), String>, usize) {
    let mut started = 0;
    for (s, o) in steps.iter().zip(outcomes.iter()) {
        started += 1;
        if let Some(e) = direct_step_error(s, o) {
            return (Err(e), started);
        }
    }
    (Ok(()), started)
}

#[test]
fn a_direct_toggle_follows_its_persistent_step_only() {
    let failed = || StepOutcome::Failed { stderr: "Bootstrap failed: 5: Input/output error\n".to_string() };
    let enable = set_job_enabled("com.me.job", "/Users/me/Library/LaunchAgents/j.plist", "user", true, "501").unwrap();
    // The best-effort bootstrap failing does not change the result.
    assert_eq!(run_with(&enable.steps, vec![StepOutcome::Succeeded, failed()]), (Ok(()), 2));
    // A failing enable stops the run before the bootstrap, with its message.
    assert_eq!(
        run_with(&enable.steps, vec![failed(), StepOutcome::Succeeded]),
        (Err("Bootstrap failed: 5: Input/output error".to_string()), 1)
    );
    let disable = set_job_enabled("com.me.job", "/Users/me/Library/LaunchAgents/j.plist", "user", false, "501").unwrap();
    assert_eq!(run_with(&disable.steps, vec![failed(), StepOutcome::Succeeded]), (Ok(()), 2));
    assert_eq!(
        run_with(&disable.steps, vec![StepOutcome::Succeeded, StepOutcome::Failed { stderr: String::new() }]),
        (Err("launchctl disable gui/501/com.me.job failed".to_string()), 2)
    );
}
