use jobs::policy::{cron_permissions, launchd_permissions, refusal, LaunchdState, Permission, Refusal, Status};
use jobs::types::Scope;

#[test]
fn the_disabled_database_overrides_the_plist_key() {
    let plist_says_off_database_says_on = LaunchdState {
        disabled_key: true,
        disabled_override: Some(false),
        loaded: true,
        pid: None,
        last_exit: None,
    };
    assert_eq!(plist_says_off_database_says_on.status(), Status::Idle { last_exit: None });

    let database_says_off_while_running = LaunchdState {
        disabled_key: false,
        disabled_override: Some(true),
        loaded: true,
        pid: Some(431),
        last_exit: None,
    };
    assert_eq!(database_says_off_while_running.status(), Status::Disabled);
}

#[test]
fn each_state_carries_only_what_it_can_know() {
    let running = LaunchdState { disabled_key: false, disabled_override: None, loaded: true, pid: Some(431), last_exit: Some(0) };
    assert_eq!(running.status(), Status::Running { pid: 431 });

    let idle = LaunchdState { disabled_key: false, disabled_override: None, loaded: true, pid: None, last_exit: Some(1) };
    assert_eq!(idle.status(), Status::Idle { last_exit: Some(1) });

    let never_loaded = LaunchdState { disabled_key: false, disabled_override: None, loaded: false, pid: None, last_exit: None };
    assert_eq!(never_loaded.status(), Status::NotLoaded { last_exit: None });
}

#[test]
fn the_plist_key_decides_without_a_database_entry() {
    let off = LaunchdState { disabled_key: true, disabled_override: None, loaded: false, pid: None, last_exit: Some(2) };
    assert_eq!(off.status(), Status::Disabled);
    let not_loaded = LaunchdState { disabled_key: false, disabled_override: None, loaded: false, pid: None, last_exit: Some(2) };
    assert_eq!(not_loaded.status(), Status::NotLoaded { last_exit: Some(2) });
}

#[test]
fn apple_and_the_sealed_volume_are_refused_for_every_action() {
    let by_label = launchd_permissions("com.apple.thing", "/Library/LaunchAgents/x.plist", Scope::User);
    assert_eq!(by_label.toggle, Permission::Refused { reason: Refusal::Apple });
    assert_eq!(by_label.delete, Permission::Refused { reason: Refusal::Apple });

    let by_scope = launchd_permissions("com.vendor.thing", "/Library/LaunchAgents/x.plist", Scope::Apple);
    assert_eq!(by_scope.toggle, Permission::Refused { reason: Refusal::Apple });

    let sealed = launchd_permissions("com.me.thing", "/System/Library/LaunchAgents/x.plist", Scope::User);
    assert_eq!(sealed.toggle, Permission::Refused { reason: Refusal::SystemVolume });
}

#[test]
fn a_global_agent_toggles_freely_but_needs_admin_to_delete() {
    let global = launchd_permissions("com.me.thing", "/Library/LaunchAgents/x.plist", Scope::Global);
    assert_eq!(global.toggle, Permission::Editable);
    assert_eq!(global.delete, Permission::NeedsAdmin);

    let own = launchd_permissions("com.me.thing", "/Users/me/Library/LaunchAgents/x.plist", Scope::User);
    assert_eq!(own.toggle, Permission::Editable);
    assert_eq!(own.delete, Permission::Editable);
}

#[test]
fn cron_lines_cannot_be_changed_from_this_app() {
    let cron = cron_permissions();
    assert_eq!(cron.toggle, Permission::Refused { reason: Refusal::Unsupported });
    assert_eq!(cron.delete, Permission::Refused { reason: Refusal::Unsupported });
}

#[test]
fn refusal_reasons_and_messages() {
    assert_eq!(refusal("com.apple.x", "/System/Library/x.plist", Scope::User), Some(Refusal::Apple));
    assert_eq!(refusal("com.me.x", "/System/Library/x.plist", Scope::System), Some(Refusal::SystemVolume));
    assert_eq!(refusal("com.me.x", "/Library/x.plist", Scope::System), None);
    assert_eq!(Refusal::Unsupported.message(), "cron jobs cannot be changed from this app.");
    assert_eq!(Refusal::SystemVolume.message(), "Job lives in /System — refused. That volume is sealed and read-only.");
    let system = launchd_permissions("com.me.d", "/Library/LaunchDaemons/d.plist", Scope::System);
    assert_eq!(system.toggle, Permission::NeedsAdmin);
    assert_eq!(system.delete, Permission::NeedsAdmin);
}
