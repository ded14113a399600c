use jobs::types::{weekday_name, Action, Scope};

#[test]
fn only_system_daemons_use_the_system_launchd_domain() {
    assert_eq!(Scope::System.launchd_domain("501"), "system");
    assert_eq!(Scope::User.launchd_domain("501"), "gui/501");
    assert_eq!(Scope::Global.launchd_domain("501"), "gui/501");
    assert_eq!(Scope::Apple.launchd_domain("501"), "gui/501");
}

#[test]
fn admin_is_required_per_action_not_per_scope() {
    assert!(!Scope::Global.needs_admin(Action::Toggle));
    assert!(Scope::Global.needs_admin(Action::Delete));

    assert!(Scope::System.needs_admin(Action::Toggle));
    assert!(Scope::System.needs_admin(Action::Delete));

    assert!(!Scope::User.needs_admin(Action::Toggle));
    assert!(!Scope::User.needs_admin(Action::Delete));
}

#[test]
fn weekdays_wrap_around_the_week() {
    assert_eq!(weekday_name(0), "Sunday");
    assert_eq!(weekday_name(1), "Monday");
    assert_eq!(weekday_name(6), "Saturday");
    assert_eq!(weekday_name(7), "Sunday");
    assert_eq!(weekday_name(8), "Monday");
    assert_eq!(weekday_name(-1), "Saturday");
    assert_eq!(weekday_name(-7), "Sunday");
    assert_eq!(weekday_name(i64::MIN), weekday_name(i64::MIN + 7));
}
